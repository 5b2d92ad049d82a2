use vstd::prelude::*;

use crate::surface::TextureFormat;

verus! {

/// An RGBA colour an image is cleared to, one byte per channel.
#[derive(Clone, Copy, Debug, PartialEq, Eq)]
pub struct ClearColor {
    pub r: u8,
    pub g: u8,
    pub b: u8,
    pub a: u8,
}

/// An image declared for one build of a render graph.
#[derive(Clone, Copy, Debug, PartialEq, Eq)]
pub struct ImageResource {
    pub width: u32,
    pub height: u32,
    pub samples: u8,
    pub format: TextureFormat,
    pub clear: Option<ClearColor>,
}

/// A pass of a render graph: the images it writes and reads (indices into the
/// declared images) and the passes it must follow (indices into the passes).
#[derive(Clone, Debug)]
pub struct NodeDesc {
    pub writes: Vec<usize>,
    pub reads: Vec<usize>,
    pub deps: Vec<usize>,
}

/// The read-only context handed to every pass of one frame.
#[derive(Clone, Copy, Debug, PartialEq, Eq)]
pub struct FrameState {
    pub frame: u64,
    pub elapsed_ns: u64,
    pub width: u32,
    pub height: u32,
}

/// One pass to run, with the frame it runs for.
#[derive(Clone, Copy, Debug, PartialEq, Eq)]
pub struct PassRun {
    pub node: usize,
    pub frame: FrameState,
}

#[derive(Clone, Copy, Debug, PartialEq, Eq)]
pub enum GraphError {
    /// The pass names an image or a pass that was not declared.
    DanglingReference { node: usize },
    /// The pass lies on a cycle of dependencies.
    Cycle { node: usize },
}

/// Pass `j` writes an image that pass `i` reads.
pub open spec fn writes_for(nodes: Seq<NodeDesc>, j: int, i: int) -> bool {
    exists|img: usize| #[trigger]
        nodes[j].writes@.contains(img) && nodes[i].reads@.contains(img)
}

/// Pass `j` must run before pass `i`: `i` names `j` as a dependency (a pass
/// that names itself can never run), or `j` is another pass that writes what `i` reads.
pub open spec fn must_precede(nodes: Seq<NodeDesc>, j: int, i: int) -> bool {
    &&& 0 <= j < nodes.len()
    &&& 0 <= i < nodes.len()
    &&& (nodes[i].deps@.contains(j as usize) || (j != i && writes_for(nodes, j, i)))
}

/// `order` runs every pass exactly once and each pass after all that must precede it.
pub open spec fn is_execution_order(nodes: Seq<NodeDesc>, order: Seq<usize>) -> bool {
    &&& order.len() == nodes.len()
    &&& order.no_duplicates()
    &&& forall|p: int| 0 <= p < order.len() ==> #[trigger] order[p] < nodes.len()
    &&& forall|k: usize| k < nodes.len() ==> #[trigger] order.contains(k)
    &&& forall|p: int, q: int|
        0 <= p < order.len() && 0 <= q < order.len() && #[trigger] must_precede(
            nodes,
            order[q] as int,
            order[p] as int,
        ) ==> q < p
}

/// Pass `k` can run once the passes of `placed` have run: it has not run yet and
/// every pass that must precede it has.
pub open spec fn ready_after(nodes: Seq<NodeDesc>, placed: Seq<usize>, k: usize) -> bool {
    &&& k < nodes.len()
    &&& !placed.contains(k)
    &&& forall|j: usize| #[trigger] must_precede(nodes, j as int, k as int) ==> placed.contains(j)
}

/// Each pass of `order` is the lowest-numbered one that is ready at its turn:
/// ties are broken by declaration order.
pub open spec fn takes_first_ready(nodes: Seq<NodeDesc>, order: Seq<usize>) -> bool {
    forall|p: int, k: usize|
        0 <= p < order.len() && k < order[p] ==> !#[trigger] ready_after(nodes, order.subrange(0, p), k)
}

pub open spec fn has_execution_order(nodes: Seq<NodeDesc>) -> bool {
    exists|order: Seq<usize>| is_execution_order(nodes, order)
}

/// `c` is a cycle of dependencies, listed backwards: each pass of `c` must run
/// after the next one, and the last after the first.
pub open spec fn is_dependency_cycle(nodes: Seq<NodeDesc>, c: Seq<usize>) -> bool {
    &&& c.len() > 0
    &&& forall|i: int| 0 <= i < c.len() - 1 ==> #[trigger] must_precede(nodes, c[i + 1] as int, c[i] as int)
    &&& must_precede(nodes, c[0] as int, c.last() as int)
}

/// Pass `k` lies on a cycle of dependencies.
pub open spec fn on_cycle(nodes: Seq<NodeDesc>, k: usize) -> bool {
    exists|c: Seq<usize>| #[trigger] is_dependency_cycle(nodes, c) && c[0] == k
}

/// Some pass in `rem` must precede pass `i`.
pub open spec fn pending_predecessor(nodes: Seq<NodeDesc>, rem: Seq<usize>, i: int) -> bool {
    exists|x: int| 0 <= x < rem.len() && #[trigger] must_precede(nodes, rem[x] as int, i)
}

/// In an execution order, a pass that writes an image runs before every other
/// pass that reads it, and a pass named as an explicit dependency runs before
/// the pass that names it.
pub proof fn lemma_order_respects_edges(nodes: Seq<NodeDesc>, order: Seq<usize>, p: int, q: int)
    requires
        is_execution_order(nodes, order),
        0 <= p < order.len(),
        0 <= q < order.len(),
        order[q] != order[p],
        nodes[order[p] as int].deps@.contains(order[q]) || exists|img: usize|
            nodes[order[q] as int].writes@.contains(img) && nodes[order[p] as int].reads@.contains(img),
    ensures
        q < p,
{
    assert(must_precede(nodes, order[q] as int, order[p] as int));
}

/// In an execution order, each pass is ready when its turn comes.
proof fn lemma_ready_at_turn(nodes: Seq<NodeDesc>, order: Seq<usize>, p: int)
    requires
        is_execution_order(nodes, order),
        0 <= p < order.len(),
    ensures
        ready_after(nodes, order.subrange(0, p), order[p]),
{
    let pre = order.subrange(0, p);
    assert(order[p] < nodes.len());
    if pre.contains(order[p]) {
        let q = choose|q: int| 0 <= q < pre.len() && pre[q] == order[p];
        assert(order[q] == order[p]);
    }
    assert forall|j: usize| #[trigger] must_precede(nodes, j as int, order[p] as int) implies pre.contains(j) by {
        assert(order.contains(j));
        let q = choose|q: int| 0 <= q < order.len() && order[q] == j;
        assert(must_precede(nodes, order[q] as int, order[p] as int));
        assert(pre[q] == j);
    }
}

proof fn lemma_same_prefix(nodes: Seq<NodeDesc>, a: Seq<usize>, b: Seq<usize>, p: int)
    requires
        is_execution_order(nodes, a),
        takes_first_ready(nodes, a),
        is_execution_order(nodes, b),
        takes_first_ready(nodes, b),
        0 <= p <= a.len(),
    ensures
        a.subrange(0, p) =~= b.subrange(0, p),
    decreases p,
{
    if p > 0 {
        lemma_same_prefix(nodes, a, b, p - 1);
        let pre = a.subrange(0, p - 1);
        lemma_ready_at_turn(nodes, a, p - 1);
        lemma_ready_at_turn(nodes, b, p - 1);
        assert(b.subrange(0, p - 1) == pre);
        if a[p - 1] < b[p - 1] {
            assert(!ready_after(nodes, b.subrange(0, p - 1), a[p - 1]));
        }
        if b[p - 1] < a[p - 1] {
            assert(!ready_after(nodes, a.subrange(0, p - 1), b[p - 1]));
        }
        assert(a[p - 1] == b[p - 1]);
        assert forall|i: int| 0 <= i < p implies a.subrange(0, p)[i] == b.subrange(0, p)[i] by {
            if i < p - 1 {
                assert(a.subrange(0, p)[i] == pre[i]);
                assert(b.subrange(0, p)[i] == b.subrange(0, p - 1)[i]);
            }
        }
    }
}

/// The order of a graph is determined by its passes alone: two execution
/// orders that each take the lowest-numbered ready pass at every turn are equal.
pub proof fn lemma_execution_order_unique(nodes: Seq<NodeDesc>, a: Seq<usize>, b: Seq<usize>)
    requires
        is_execution_order(nodes, a),
        takes_first_ready(nodes, a),
        is_execution_order(nodes, b),
        takes_first_ready(nodes, b),
    ensures
        a == b,
{
    lemma_same_prefix(nodes, a, b, a.len() as int);
    assert(a.subrange(0, a.len() as int) =~= a);
    assert(b.subrange(0, b.len() as int) =~= b);
}

/// No pass of a cycle can stand anywhere in an execution order.
proof fn lemma_cycle_not_placed(nodes: Seq<NodeDesc>, c: Seq<usize>, order: Seq<usize>, p: int)
    requires
        is_execution_order(nodes, order),
        is_dependency_cycle(nodes, c),
        0 <= p < order.len(),
    ensures
        !c.contains(order[p]),
    decreases p,
{
    if c.contains(order[p]) {
        let t = choose|t: int| 0 <= t < c.len() && c[t] == order[p];
        let d = if t == c.len() - 1 { c[0] } else { c[t + 1] };
        if t < c.len() - 1 {
            assert(must_precede(nodes, c[t + 1] as int, c[t] as int));
        }
        assert(must_precede(nodes, d as int, order[p] as int));
        assert(order.contains(d));
        let q = choose|q: int| 0 <= q < order.len() && order[q] == d;
        assert(must_precede(nodes, order[q] as int, order[p] as int));
        if t == c.len() - 1 {
            assert(c[0] == order[q]);
        } else {
            assert(c[t + 1] == order[q]);
        }
        lemma_cycle_not_placed(nodes, c, order, q);
    }
}

/// A graph with a cycle of dependencies (a pass that names itself is one) has
/// no execution order, so building it fails.
pub proof fn lemma_cycle_has_no_order(nodes: Seq<NodeDesc>, c: Seq<usize>)
    requires
        is_dependency_cycle(nodes, c),
    ensures
        !has_execution_order(nodes),
{
    if has_execution_order(nodes) {
        let order = choose|order: Seq<usize>| is_execution_order(nodes, order);
        if c.len() > 1 {
            assert(must_precede(nodes, c[0int + 1] as int, c[0int] as int));
        } else {
            assert(must_precede(nodes, c[0] as int, c.last() as int));
        }
        assert(order.contains(c[0]));
        let p = choose|p: int| 0 <= p < order.len() && order[p] == c[0];
        lemma_cycle_not_placed(nodes, c, order, p);
        assert(c.contains(c[0]));
    }
}

/// Distinct indices below `n` number at most `n`.
proof fn lemma_distinct_bounded(s: Seq<usize>, n: usize)
    requires
        s.no_duplicates(),
        forall|i: int| 0 <= i < s.len() ==> #[trigger] s[i] < n,
    ensures
        s.len() <= n,
    decreases n,
{
    if n == 0 {
        if s.len() > 0 {
            assert(s[0] < n);
        }
    } else {
        let top = (n - 1) as usize;
        if s.contains(top) {
            let idx = choose|idx: int| 0 <= idx < s.len() && s[idx] == top;
            let r = s.remove(idx);
            s.remove_ensures(idx);
            assert forall|a: int, b: int| 0 <= a < r.len() && 0 <= b < r.len() && a != b implies r[a] != r[b] by {
                let a0 = if a < idx { a } else { a + 1 };
                let b0 = if b < idx { b } else { b + 1 };
                assert(r[a] == s[a0]);
                assert(r[b] == s[b0]);
            }
            assert forall|i: int| 0 <= i < r.len() implies #[trigger] r[i] < top by {
                let i0 = if i < idx { i } else { i + 1 };
                assert(r[i] == s[i0]);
                assert(i0 != idx);
            }
            lemma_distinct_bounded(r, top);
        } else {
            assert forall|i: int| 0 <= i < s.len() implies #[trigger] s[i] < top by {
                assert(s[i] != top);
            }
            lemma_distinct_bounded(s, top);
        }
    }
}

fn contains_index(v: &Vec<usize>, x: usize) -> (r: bool)
    ensures
        r == v@.contains(x),
{
    let mut a: usize = 0;
    while a < v.len()
        invariant
            a <= v.len(),
            forall|y: int| 0 <= y < a ==> v@[y] != x,
        decreases v.len() - a,
    {
        if v[a] == x {
            return true;
        }
        a += 1;
    }
    false
}

fn writes_for_exec(nodes: &Vec<NodeDesc>, j: usize, i: usize) -> (r: bool)
    requires
        j < nodes.len(),
        i < nodes.len(),
    ensures
        r == writes_for(nodes@, j as int, i as int),
{
    let w = &nodes[j].writes;
    let rd = &nodes[i].reads;
    let mut a: usize = 0;
    while a < w.len()
        invariant
            a <= w.len(),
            w@ == nodes@[j as int].writes@,
            rd@ == nodes@[i as int].reads@,
            forall|y: int| 0 <= y < a ==> !rd@.contains(#[trigger] w@[y]),
        decreases w.len() - a,
    {
        if contains_index(rd, w[a]) {
            assert(w@.contains(w@[a as int]));
            return true;
        }
        a += 1;
    }
    assert forall|img: usize| !(w@.contains(img) && rd@.contains(img)) by {
        if w@.contains(img) {
            let y = choose|y: int| 0 <= y < w@.len() && w@[y] == img;
            assert(!rd@.contains(w@[y]));
        }
    }
    false
}

fn must_precede_exec(nodes: &Vec<NodeDesc>, j: usize, i: usize) -> (r: bool)
    requires
        j < nodes.len(),
        i < nodes.len(),
    ensures
        r == must_precede(nodes@, j as int, i as int),
{
    if contains_index(&nodes[i].deps, j) {
        return true;
    }
    if j == i {
        return false;
    }
    writes_for_exec(nodes, j, i)
}

/// The position in `rem` of a pass that must precede pass `i`, if there is one.
fn pending_position(nodes: &Vec<NodeDesc>, rem: &Vec<usize>, i: usize) -> (r: Option<usize>)
    requires
        i < nodes.len(),
        forall|x: int| 0 <= x < rem.len() ==> #[trigger] rem@[x] < nodes.len(),
    ensures
        r is None <==> !pending_predecessor(nodes@, rem@, i as int),
        r matches Some(x) ==> x < rem.len() && must_precede(nodes@, rem@[x as int] as int, i as int),
{
    let mut x: usize = 0;
    while x < rem.len()
        invariant
            x <= rem.len(),
            i < nodes.len(),
            forall|y: int| 0 <= y < rem.len() ==> #[trigger] rem@[y] < nodes.len(),
            forall|y: int| 0 <= y < x ==> !must_precede(nodes@, #[trigger] rem@[y] as int, i as int),
        decreases rem.len() - x,
    {
        if must_precede_exec(nodes, rem[x], i) {
            return Some(x);
        }
        x += 1;
    }
    None
}

fn position_of(v: &Vec<usize>, x: usize) -> (r: Option<usize>)
    ensures
        r is None <==> !v@.contains(x),
        r matches Some(t) ==> t < v.len() && v@[t as int] == x,
{
    let mut a: usize = 0;
    while a < v.len()
        invariant
            a <= v.len(),
            forall|y: int| 0 <= y < a ==> v@[y] != x,
        decreases v.len() - a,
    {
        if v[a] == x {
            return Some(a);
        }
        a += 1;
    }
    None
}

/// A walk backwards through `rem`: distinct passes of `rem`, each of which
/// must run before the one listed ahead of it.
#[verifier::opaque]
spec fn backward_walk(nodes: Seq<NodeDesc>, rem: Seq<usize>, path: Seq<usize>) -> bool {
    &&& path.len() >= 1
    &&& path.len() <= nodes.len()
    &&& path.no_duplicates()
    &&& forall|i: int| 0 <= i < path.len() ==> rem.contains(#[trigger] path[i])
    &&& forall|i: int| 0 <= i < path.len() - 1 ==> #[trigger] must_precede(nodes, path[i + 1] as int, path[i] as int)
}

proof fn lemma_walk_start(nodes: Seq<NodeDesc>, rem: Seq<usize>)
    requires
        rem.len() > 0,
        rem[0] < nodes.len(),
    ensures
        backward_walk(nodes, rem, seq![rem[0]]),
{
    reveal(backward_walk);
    assert(rem.contains(rem[0]));
}

proof fn lemma_walk_facts(nodes: Seq<NodeDesc>, rem: Seq<usize>, path: Seq<usize>)
    requires
        backward_walk(nodes, rem, path),
    ensures
        1 <= path.len() <= nodes.len(),
        rem.contains(path.last()),
{
    reveal(backward_walk);
}

proof fn lemma_walk_extend(nodes: Seq<NodeDesc>, rem: Seq<usize>, path: Seq<usize>, prev: usize, n: usize)
    requires
        n == nodes.len(),
        backward_walk(nodes, rem, path),
        forall|x: int| 0 <= x < rem.len() ==> #[trigger] rem[x] < nodes.len(),
        rem.contains(prev),
        !path.contains(prev),
        must_precede(nodes, prev as int, path.last() as int),
    ensures
        backward_walk(nodes, rem, path.push(prev)),
{
    reveal(backward_walk);
    let np = path.push(prev);
    assert forall|a: int, b: int| 0 <= a < np.len() && 0 <= b < np.len() && a != b implies np[a] != np[b] by {
        if a < path.len() && b < path.len() {
            assert(np[a] == path[a] && np[b] == path[b]);
        } else if a < path.len() {
            assert(path.contains(np[a]));
        } else {
            assert(path.contains(np[b]));
        }
    }
    assert forall|i: int| 0 <= i < np.len() implies rem.contains(#[trigger] np[i]) by {
        if i < path.len() {
            assert(np[i] == path[i]);
        }
    }
    assert forall|i: int| 0 <= i < np.len() implies #[trigger] np[i] < nodes.len() by {
        assert(rem.contains(np[i]));
        let x = choose|x: int| 0 <= x < rem.len() && rem[x] == np[i];
    }
    lemma_distinct_bounded(np, n);
    assert forall|i: int| 0 <= i < np.len() - 1 implies #[trigger] must_precede(nodes, np[i + 1] as int, np[i] as int) by {
        if i < path.len() - 1 {
            assert(np[i] == path[i] && np[i + 1] == path[i + 1]);
        }
    }
}

proof fn lemma_walk_closes(nodes: Seq<NodeDesc>, rem: Seq<usize>, path: Seq<usize>, t: int)
    requires
        backward_walk(nodes, rem, path),
        0 <= t < path.len(),
        must_precede(nodes, path[t] as int, path.last() as int),
    ensures
        on_cycle(nodes, path[t]),
{
    reveal(backward_walk);
    let c = path.subrange(t, path.len() as int);
    assert forall|i: int| 0 <= i < c.len() - 1 implies #[trigger] must_precede(nodes, c[i + 1] as int, c[i] as int) by {
        assert(c[i] == path[t + i]);
        assert(c[i + 1] == path[(t + i) + 1]);
    }
    assert(c.last() == path.last());
    assert(is_dependency_cycle(nodes, c));
    assert(c[0] == path[t]);
}

/// Walks back from the first pass of `rem` through passes of `rem` that must
/// precede it until a pass comes round again; that pass lies on a cycle.
fn find_cycle(nodes: &Vec<NodeDesc>, rem: &Vec<usize>) -> (r: usize)
    requires
        rem.len() > 0,
        forall|x: int| 0 <= x < rem.len() ==> #[trigger] rem@[x] < nodes.len(),
        forall|y: int| 0 <= y < rem.len() ==> pending_predecessor(nodes@, rem@, #[trigger] rem@[y] as int),
    ensures
        on_cycle(nodes@, r),
{
    let n = nodes.len();
    let mut path: Vec<usize> = Vec::new();
    path.push(rem[0]);
    proof {
        lemma_walk_start(nodes@, rem@);
        assert(path@ =~= seq![rem@[0]]);
    }
    loop
        invariant
            n == nodes.len(),
            backward_walk(nodes@, rem@, path@),
            forall|x: int| 0 <= x < rem.len() ==> #[trigger] rem@[x] < nodes.len(),
            forall|y: int| 0 <= y < rem.len() ==> pending_predecessor(nodes@, rem@, #[trigger] rem@[y] as int),
        decreases n - path.len(),
    {
        proof {
            lemma_walk_facts(nodes@, rem@, path@);
        }
        let cur = path[path.len() - 1];
        proof {
            let y = choose|y: int| 0 <= y < rem.len() && rem@[y] == cur;
            assert(pending_predecessor(nodes@, rem@, rem@[y] as int));
        }
        let x = match pending_position(nodes, rem, cur) {
            Some(x) => x,
            None => {
                proof {
                    assert(false);
                }
                return cur;
            },
        };
        let prev = rem[x];
        match position_of(&path, prev) {
            Some(t) => {
                proof {
                    lemma_walk_closes(nodes@, rem@, path@, t as int);
                }
                return prev;
            },
            None => {
                proof {
                    assert(rem@.contains(rem@[x as int]));
                    lemma_walk_extend(nodes@, rem@, path@, prev, n);
                }
                path.push(prev);
                proof {
                    lemma_walk_facts(nodes@, rem@, path@);
                }
            },
        }
    }
}

/// The position in `rem` of the first pass that nothing in `rem` must precede.
fn first_ready(nodes: &Vec<NodeDesc>, rem: &Vec<usize>) -> (r: Option<usize>)
    requires
        forall|x: int| 0 <= x < rem.len() ==> #[trigger] rem@[x] < nodes.len(),
    ensures
        r matches Some(x) ==> x < rem.len() && !pending_predecessor(nodes@, rem@, rem@[x as int] as int)
            && forall|y: int| 0 <= y < x ==> pending_predecessor(nodes@, rem@, #[trigger] rem@[y] as int),
        r is None ==> forall|y: int|
            0 <= y < rem.len() ==> pending_predecessor(nodes@, rem@, #[trigger] rem@[y] as int),
{
    let mut x: usize = 0;
    while x < rem.len()
        invariant
            x <= rem.len(),
            forall|y: int| 0 <= y < rem.len() ==> #[trigger] rem@[y] < nodes.len(),
            forall|y: int| 0 <= y < x ==> pending_predecessor(nodes@, rem@, #[trigger] rem@[y] as int),
        decreases rem.len() - x,
    {
        if pending_position(nodes, rem, rem[x]).is_none() {
            return Some(x);
        }
        x += 1;
    }
    None
}

/// The state of the ordering loop: `order` holds the passes placed so far,
/// `rem` those still to place, and every placed pass follows all that must precede it.
#[verifier::opaque]
spec fn ordering_state(nodes: Seq<NodeDesc>, order: Seq<usize>, rem: Seq<usize>) -> bool {
    let n = nodes.len();
    &&& order.len() + rem.len() == n
    &&& order.no_duplicates()
    &&& rem.no_duplicates()
    &&& forall|p: int| 0 <= p < order.len() ==> #[trigger] order[p] < n
    &&& forall|p: int| 0 <= p < rem.len() ==> #[trigger] rem[p] < n
    &&& forall|k: usize| k < n ==> #[trigger] order.contains(k) || #[trigger] rem.contains(k)
    &&& forall|k: usize| #[trigger] order.contains(k) ==> !rem.contains(k)
    &&& forall|a: int, b: int| 0 <= a < b < rem.len() ==> #[trigger] rem[a] < #[trigger] rem[b]
    &&& takes_first_ready(nodes, order)
    &&& forall|p: int, j: usize|
        0 <= p < order.len() && #[trigger] must_precede(nodes, j as int, order[p] as int)
            ==> order.contains(j)
    &&& forall|p: int, q: int|
        0 <= p < order.len() && 0 <= q < order.len() && #[trigger] must_precede(
            nodes,
            order[q] as int,
            order[p] as int,
        ) ==> q < p
}

proof fn lemma_ordering_start(nodes: Seq<NodeDesc>, rem: Seq<usize>)
    requires
        rem.len() == nodes.len(),
        forall|x: int| 0 <= x < rem.len() ==> #[trigger] rem[x] == x,
    ensures
        ordering_state(nodes, Seq::empty(), rem),
{
    reveal(ordering_state);
    assert forall|a: int, b: int| 0 <= a < b < rem.len() implies #[trigger] rem[a] < #[trigger] rem[b] by {
        assert(rem[a] == a && rem[b] == b);
    }
    assert forall|k: usize| k < nodes.len() implies rem.contains(k) by {
        assert(rem[k as int] == k);
    }
}

proof fn lemma_ordering_bounds(nodes: Seq<NodeDesc>, order: Seq<usize>, rem: Seq<usize>)
    requires
        ordering_state(nodes, order, rem),
    ensures
        forall|p: int| 0 <= p < rem.len() ==> #[trigger] rem[p] < nodes.len(),
        order.len() + rem.len() == nodes.len(),
{
    reveal(ordering_state);
}

proof fn lemma_ordering_step(nodes: Seq<NodeDesc>, order: Seq<usize>, rem: Seq<usize>, idx: int)
    requires
        ordering_state(nodes, order, rem),
        0 <= idx < rem.len(),
        !pending_predecessor(nodes, rem, rem[idx] as int),
        forall|y: int| 0 <= y < idx ==> pending_predecessor(nodes, rem, #[trigger] rem[y] as int),
    ensures
        ordering_state(nodes, order.push(rem[idx]), rem.remove(idx)),
{
    reveal(ordering_state);
    let i = rem[idx];
    let new_rem = rem.remove(idx);
    let new_order = order.push(i);
    rem.remove_ensures(idx);
    assert forall|x: usize| new_rem.contains(x) <==> (rem.contains(x) && x != i) by {
        if new_rem.contains(x) {
            let t = choose|t: int| 0 <= t < new_rem.len() && new_rem[t] == x;
            if t < idx {
                assert(rem[t] == x);
            } else {
                assert(rem[t + 1] == x);
            }
        }
        if rem.contains(x) && x != i {
            let t = choose|t: int| 0 <= t < rem.len() && rem[t] == x;
            if t < idx {
                assert(new_rem[t] == x);
            } else {
                assert(new_rem[t - 1] == x);
            }
        }
    }
    assert forall|a: int, b: int|
        0 <= a < new_rem.len() && 0 <= b < new_rem.len() && a != b implies new_rem[a]
        != new_rem[b] by {
        let a0 = if a < idx { a } else { a + 1 };
        let b0 = if b < idx { b } else { b + 1 };
        assert(new_rem[a] == rem[a0]);
        assert(new_rem[b] == rem[b0]);
    }
    assert forall|j: usize| must_precede(nodes, j as int, i as int) implies order.contains(j) by {
        if rem.contains(j) {
            let x = choose|x: int| 0 <= x < rem.len() && rem[x] == j;
            assert(must_precede(nodes, rem[x] as int, i as int));
        }
    }
    assert(rem.contains(i));
    assert(!order.contains(i));
    assert forall|x: usize| new_order.contains(x) <==> (order.contains(x) || x == i) by {
        if new_order.contains(x) {
            let t = choose|t: int| 0 <= t < new_order.len() && new_order[t] == x;
            if t < order.len() {
                assert(order[t] == x);
            }
        }
        if order.contains(x) {
            let t = choose|t: int| 0 <= t < order.len() && order[t] == x;
            assert(new_order[t] == x);
        }
        if x == i {
            assert(new_order[order.len() as int] == x);
        }
    }
    assert forall|p: int, j: usize|
        0 <= p < new_order.len() && #[trigger] must_precede(nodes, j as int, new_order[p] as int)
            implies new_order.contains(j) by {
        if p < order.len() {
            assert(must_precede(nodes, j as int, order[p] as int));
        }
    }
    assert forall|p: int, q: int|
        0 <= p < new_order.len() && 0 <= q < new_order.len() && #[trigger] must_precede(
            nodes,
            new_order[q] as int,
            new_order[p] as int,
        ) implies q < p by {
        if q == order.len() && p < order.len() {
            assert(must_precede(nodes, i as int, order[p] as int));
        } else if q < order.len() && p < order.len() {
            assert(must_precede(nodes, order[q] as int, order[p] as int));
        }
    }
    assert forall|a: int, b: int| 0 <= a < b < new_rem.len() implies #[trigger] new_rem[a] < #[trigger] new_rem[b] by {
        let a0 = if a < idx { a } else { a + 1 };
        let b0 = if b < idx { b } else { b + 1 };
        assert(new_rem[a] == rem[a0]);
        assert(new_rem[b] == rem[b0]);
    }
    assert forall|p: int, k: usize|
        0 <= p < new_order.len() && k < new_order[p] implies !#[trigger] ready_after(nodes, new_order.subrange(0, p), k) by {
        if p < order.len() {
            assert(new_order.subrange(0, p) =~= order.subrange(0, p));
        } else {
            assert(new_order.subrange(0, p) =~= order);
            if !order.contains(k) {
                assert(rem.contains(k));
                let t = choose|t: int| 0 <= t < rem.len() && rem[t] == k;
                if t > idx {
                    assert(rem[idx] < rem[t]);
                }
                assert(t < idx);
                assert(pending_predecessor(nodes, rem, rem[t] as int));
                let x = choose|x: int| 0 <= x < rem.len() && #[trigger] must_precede(nodes, rem[x] as int, rem[t] as int);
                assert(rem.contains(rem[x]));
                assert(!order.contains(rem[x]));
            }
        }
    }
}

proof fn lemma_ordering_done(nodes: Seq<NodeDesc>, order: Seq<usize>, rem: Seq<usize>)
    requires
        ordering_state(nodes, order, rem),
        rem.len() == 0,
    ensures
        is_execution_order(nodes, order),
        takes_first_ready(nodes, order),
{
    reveal(ordering_state);
    assert forall|k: usize| k < nodes.len() implies #[trigger] order.contains(k) by {
        assert(!rem.contains(k));
    }
}

/// Orders the passes so that each runs after every pass that must precede it,
/// taking at each step the first pass, in declaration order, that is free to run.
/// Fails with a pass that lies on a cycle when no such order exists.
pub fn execution_order(nodes: &Vec<NodeDesc>) -> (r: Result<Vec<usize>, GraphError>)
    ensures
        r is Ok <==> has_execution_order(nodes@),
        r matches Ok(order) ==> is_execution_order(nodes@, order@) && takes_first_ready(nodes@, order@),
        r is Err ==> r matches Err(GraphError::Cycle { .. }),
        r matches Err(GraphError::Cycle { node }) ==> on_cycle(nodes@, node),
{
    let n = nodes.len();
    let mut order: Vec<usize> = Vec::new();
    let mut remaining: Vec<usize> = Vec::new();
    let mut k: usize = 0;
    while k < n
        invariant
            k <= n,
            n == nodes.len(),
            remaining@.len() == k,
            forall|x: int| 0 <= x < k ==> #[trigger] remaining@[x] == x,
        decreases n - k,
    {
        remaining.push(k);
        k += 1;
    }
    proof {
        lemma_ordering_start(nodes@, remaining@);
    }
    while remaining.len() > 0
        invariant
            ordering_state(nodes@, order@, remaining@),
        decreases remaining.len(),
    {
        proof {
            lemma_ordering_bounds(nodes@, order@, remaining@);
        }
        match first_ready(nodes, &remaining) {
            None => {
                let node = find_cycle(nodes, &remaining);
                proof {
                    let c = choose|c: Seq<usize>| #[trigger] is_dependency_cycle(nodes@, c) && c[0] == node;
                    lemma_cycle_has_no_order(nodes@, c);
                }
                return Err(GraphError::Cycle { node });
            },
            Some(idx) => {
                proof {
                    lemma_ordering_step(nodes@, order@, remaining@, idx as int);
                }
                let i = remaining.remove(idx);
                order.push(i);
            },
        }
    }
    proof {
        lemma_ordering_done(nodes@, order@, remaining@);
    }
    Ok(order)
}

/// Every image and pass that `node` names was declared.
pub open spec fn node_refs_valid(node: NodeDesc, n_images: int, n_nodes: int) -> bool {
    &&& forall|x: int| 0 <= x < node.writes@.len() ==> #[trigger] node.writes@[x] < n_images
    &&& forall|x: int| 0 <= x < node.reads@.len() ==> #[trigger] node.reads@[x] < n_images
    &&& forall|x: int| 0 <= x < node.deps@.len() ==> #[trigger] node.deps@[x] < n_nodes
}

pub open spec fn refs_valid(nodes: Seq<NodeDesc>, n_images: int) -> bool {
    forall|k: int| 0 <= k < nodes.len() ==> #[trigger] node_refs_valid(nodes[k], n_images, nodes.len() as int)
}

fn all_below(v: &Vec<usize>, bound: usize) -> (r: bool)
    ensures
        r == forall|x: int| 0 <= x < v@.len() ==> #[trigger] v@[x] < bound,
{
    let mut a: usize = 0;
    while a < v.len()
        invariant
            a <= v.len(),
            forall|x: int| 0 <= x < a ==> #[trigger] v@[x] < bound,
        decreases v.len() - a,
    {
        if v[a] >= bound {
            return false;
        }
        a += 1;
    }
    true
}

/// The first pass that names an undeclared image or pass.
fn first_dangling(nodes: &Vec<NodeDesc>, n_images: usize) -> (r: Option<usize>)
    ensures
        r is None <==> refs_valid(nodes@, n_images as int),
        r matches Some(k) ==> k < nodes.len() && !node_refs_valid(nodes@[k as int], n_images as int, nodes.len() as int)
            && forall|j: int| 0 <= j < k ==> #[trigger] node_refs_valid(nodes@[j], n_images as int, nodes.len() as int),
{
    let mut k: usize = 0;
    while k < nodes.len()
        invariant
            k <= nodes.len(),
            forall|j: int| 0 <= j < k ==> #[trigger] node_refs_valid(nodes@[j], n_images as int, nodes.len() as int),
        decreases nodes.len() - k,
    {
        let node = &nodes[k];
        if !(all_below(&node.writes, n_images) && all_below(&node.reads, n_images) && all_below(&node.deps, nodes.len())) {
            assert(!node_refs_valid(nodes@[k as int], n_images as int, nodes.len() as int));
            return Some(k);
        }
        k += 1;
    }
    None
}

/// A render graph built for one surface configuration (one generation): its
/// declared images, its passes and the order they run in.
pub struct RenderGraph {
    images: Vec<ImageResource>,
    nodes: Vec<NodeDesc>,
    order: Vec<usize>,
    generation: u64,
}

impl RenderGraph {
    pub closed spec fn spec_images(&self) -> Seq<ImageResource> {
        self.images@
    }

    pub closed spec fn spec_nodes(&self) -> Seq<NodeDesc> {
        self.nodes@
    }

    pub closed spec fn spec_order(&self) -> Seq<usize> {
        self.order@
    }

    pub closed spec fn spec_generation(&self) -> u64 {
        self.generation
    }

    pub open spec fn wf(&self) -> bool {
        &&& refs_valid(self.spec_nodes(), self.spec_images().len() as int)
        &&& is_execution_order(self.spec_nodes(), self.spec_order())
        &&& takes_first_ready(self.spec_nodes(), self.spec_order())
    }

    /// Builds the graph of generation `generation` over the declared images and passes.
    /// Fails on a pass that names an undeclared image or pass, then on a cycle.
    pub fn build(images: Vec<ImageResource>, nodes: Vec<NodeDesc>, generation: u64) -> (r: Result<
        RenderGraph,
        GraphError,
    >)
        ensures
            r is Ok <==> refs_valid(nodes@, images@.len() as int) && has_execution_order(nodes@),
            r matches Ok(g) ==> {
                &&& g.wf()
                &&& g.spec_images() == images@
                &&& g.spec_nodes() == nodes@
                &&& g.spec_generation() == generation
            },
            r matches Err(GraphError::DanglingReference { .. }) <==> !refs_valid(nodes@, images@.len() as int),
            r matches Err(GraphError::DanglingReference { node }) ==> {
                &&& node < nodes.len()
                &&& !node_refs_valid(nodes@[node as int], images@.len() as int, nodes.len() as int)
                &&& forall|j: int| 0 <= j < node ==> #[trigger] node_refs_valid(nodes@[j], images@.len() as int, nodes.len() as int)
            },
            r matches Err(GraphError::Cycle { node }) ==> refs_valid(nodes@, images@.len() as int)
                && on_cycle(nodes@, node),
    {
        if let Some(node) = first_dangling(&nodes, images.len()) {
            return Err(GraphError::DanglingReference { node });
        }
        match execution_order(&nodes) {
            Ok(order) => Ok(RenderGraph { images, nodes, order, generation }),
            Err(e) => Err(e),
        }
    }

    /// The passes of one frame, in execution order, each with the frame's state.
    pub fn execute(&self, frame: FrameState) -> (runs: Vec<PassRun>)
        ensures
            runs@.len() == self.spec_order().len(),
            forall|p: int| 0 <= p < runs@.len() ==> #[trigger] runs@[p] == (PassRun { node: self.spec_order()[p], frame }),
    {
        let mut runs: Vec<PassRun> = Vec::new();
        let mut p: usize = 0;
        while p < self.order.len()
            invariant
                p <= self.order.len(),
                runs@.len() == p,
                forall|x: int| 0 <= x < p ==> #[trigger] runs@[x] == (PassRun { node: self.order@[x], frame }),
            decreases self.order.len() - p,
        {
            runs.push(PassRun { node: self.order[p], frame });
            p += 1;
        }
        runs
    }

    /// Releases the graph. Gives back the generation whose backend resources
    /// go with it, and the passes, from which the next generation is built.
    pub fn dispose(self) -> (r: (u64, Vec<NodeDesc>))
        ensures
            r.0 == self.spec_generation(),
            r.1@ == self.spec_nodes(),
    {
        (self.generation, self.nodes)
    }

    pub fn generation(&self) -> (r: u64)
        ensures
            r == self.spec_generation(),
    {
        self.generation
    }

    pub fn order(&self) -> (r: &Vec<usize>)
        ensures
            r@ == self.spec_order(),
    {
        &self.order
    }

    pub fn images(&self) -> (r: &Vec<ImageResource>)
        ensures
            r@ == self.spec_images(),
    {
        &self.images
    }
}

} // verus!
