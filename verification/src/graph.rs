//! Dependency graph of recipes: topological order and parallel waves.

use vstd::prelude::*;
use crate::error::Error;
use crate::map::{OrdMap, lemma_lt_irrefl, sorted_keys};
use crate::text::{chars_of, chars_eq, clone_strings, join, join_strings, lt, str_eq, sv};

verus! {

/// A wave is a set of recipe names that can run concurrently.
pub type Wave = Vec<String>;

/// A directed graph of recipe dependencies: each node lists the names it
/// depends on.  Nodes are kept in name order.
pub struct Dag {
    nodes: Vec<String>,
    deps: Vec<Vec<String>>,
}

/// The mathematical content of a [`Dag`].
pub struct DagV {
    pub nodes: Seq<Seq<char>>,
    pub deps: Seq<Seq<Seq<char>>>,
}

impl View for Dag {
    type V = DagV;

    closed spec fn view(&self) -> DagV {
        DagV { nodes: sv(self.nodes@), deps: self.deps@.map_values(|d: Vec<String>| sv(d@)) }
    }
}

/// Names strictly increasing.
pub open spec fn names_sorted(s: Seq<Seq<char>>) -> bool {
    forall|i: int, j: int| 0 <= i < j < s.len() ==> lt(#[trigger] s[i], #[trigger] s[j])
}

/// The graph is well formed: one dep list per node, nodes in name order.
pub open spec fn dag_wf(d: DagV) -> bool {
    d.nodes.len() == d.deps.len() && names_sorted(d.nodes)
}

// ---------------------------------------------------------------------------
// Specification of the waves
// ---------------------------------------------------------------------------

/// `name` is the name of a node already placed.
pub open spec fn placed_name(d: DagV, placed: Seq<bool>, name: Seq<char>) -> bool {
    exists|m: int| 0 <= m < d.nodes.len() && placed[m] && d.nodes[m] == name
}

/// Node `k` is not placed yet and all its deps are placed nodes.
pub open spec fn ready(d: DagV, placed: Seq<bool>, k: int) -> bool {
    &&& !placed[k]
    &&& forall|j: int| 0 <= j < d.deps[k].len() ==> placed_name(d, placed, #[trigger] d.deps[k][j])
}

/// The ready nodes with index at least `k`, in index order.
pub open spec fn ready_from(d: DagV, placed: Seq<bool>, k: int) -> Seq<int>
    decreases d.nodes.len() - k,
{
    if k < 0 || k >= d.nodes.len() {
        seq![]
    } else if ready(d, placed, k) {
        seq![k] + ready_from(d, placed, k + 1)
    } else {
        ready_from(d, placed, k + 1)
    }
}

/// `placed` with the nodes of `w` placed too.
pub open spec fn mark(placed: Seq<bool>, w: Seq<int>) -> Seq<bool> {
    Seq::new(placed.len(), |i: int| placed[i] || w.contains(i))
}

/// Number of nodes not placed.
pub open spec fn unplaced(placed: Seq<bool>) -> nat
    decreases placed.len(),
{
    if placed.len() == 0 {
        0
    } else {
        unplaced(placed.drop_last()) + if placed.last() {
            0nat
        } else {
            1nat
        }
    }
}

/// The waves from a placement on (each wave the nodes that became ready),
/// and the placement once no node is ready.
pub open spec fn rounds(d: DagV, placed: Seq<bool>) -> (Seq<Seq<int>>, Seq<bool>)
    decreases unplaced(placed),
{
    let w = ready_from(d, placed, 0);
    if w.len() == 0 || placed.len() != d.nodes.len() {
        (seq![], placed)
    } else {
        proof {
            lemma_round_progress(d, placed);
        }
        let r = rounds(d, mark(placed, w));
        (seq![w] + r.0, r.1)
    }
}

/// No node placed.
pub open spec fn none_placed(n: nat) -> Seq<bool> {
    Seq::new(n, |i: int| false)
}

/// Every node placed.
pub open spec fn all_placed(p: Seq<bool>) -> bool {
    forall|i: int| 0 <= i < p.len() ==> p[i]
}

/// Indices as integers.
pub open spec fn ints(v: Seq<usize>) -> Seq<int> {
    v.map_values(|x: usize| x as int)
}

/// The names of a wave of node indices.
pub open spec fn wave_names(d: DagV, w: Seq<int>) -> Seq<Seq<char>> {
    w.map_values(|k: int| d.nodes[k])
}

/// The waves of the graph, or `None` when some node can never be placed
/// (a cycle, or a dep that names no node).
pub open spec fn waves_spec(d: DagV) -> Option<Seq<Seq<Seq<char>>>> {
    let r = rounds(d, none_placed(d.nodes.len()));
    if all_placed(r.1) {
        Some(r.0.map_values(|w: Seq<int>| wave_names(d, w)))
    } else {
        None
    }
}

pub proof fn lemma_ready_from_props(d: DagV, placed: Seq<bool>, k: int)
    requires
        0 <= k,
        placed.len() == d.nodes.len(),
    ensures
        forall|i: int|
            0 <= i < ready_from(d, placed, k).len() ==> k <= #[trigger] ready_from(d, placed, k)[i]
                < d.nodes.len() && ready(d, placed, ready_from(d, placed, k)[i]),
        forall|i: int, j: int|
            0 <= i < j < ready_from(d, placed, k).len() ==> #[trigger] ready_from(d, placed, k)[i]
                < #[trigger] ready_from(d, placed, k)[j],
        forall|m: int| k <= m < d.nodes.len() && ready(d, placed, m) ==> ready_from(d, placed, k).contains(m),
    decreases d.nodes.len() - k,
{
    if k >= d.nodes.len() {
    } else {
        lemma_ready_from_props(d, placed, k + 1);
        let r = ready_from(d, placed, k);
        let t = ready_from(d, placed, k + 1);
        if ready(d, placed, k) {
            assert(r == seq![k] + t);
            assert forall|m: int| k <= m < d.nodes.len() && ready(d, placed, m) implies r.contains(m) by {
                if m == k {
                    assert(r[0] == k);
                } else {
                    let idx = choose|idx: int| 0 <= idx < t.len() && t[idx] == m;
                    assert(r[idx + 1] == m);
                }
            }
        }
    }
}

pub proof fn lemma_unplaced_mark(placed: Seq<bool>, w: Seq<int>, i: int)
    requires
        0 <= i < placed.len(),
        !placed[i],
        w.contains(i),
    ensures
        unplaced(mark(placed, w)) < unplaced(placed),
    decreases placed.len(),
{
    lemma_unplaced_mark_le(placed.drop_last(), w);
    let m = mark(placed, w);
    assert(m.drop_last() =~= mark(placed.drop_last(), w));
    if i == placed.len() - 1 {
    } else {
        lemma_unplaced_mark(placed.drop_last(), w, i);
    }
}

pub proof fn lemma_unplaced_mark_le(placed: Seq<bool>, w: Seq<int>)
    ensures
        unplaced(mark(placed, w)) <= unplaced(placed),
    decreases placed.len(),
{
    if placed.len() > 0 {
        lemma_unplaced_mark_le(placed.drop_last(), w);
        let m = mark(placed, w);
        assert(m.drop_last() =~= mark(placed.drop_last(), w));
    }
}

pub proof fn lemma_round_progress(d: DagV, placed: Seq<bool>)
    requires
        ready_from(d, placed, 0).len() > 0,
        placed.len() == d.nodes.len(),
    ensures
        unplaced(mark(placed, ready_from(d, placed, 0))) < unplaced(placed),
{
    lemma_ready_from_props(d, placed, 0);
    let w = ready_from(d, placed, 0);
    let i = w[0];
    assert(w.contains(i));
    lemma_unplaced_mark(placed, w, i);
}

// ---------------------------------------------------------------------------
// Laws of the waves
// ---------------------------------------------------------------------------

/// `i` is in wave `k` of `ws`.
pub open spec fn in_wave(ws: Seq<Seq<int>>, k: int, i: int) -> bool {
    0 <= k < ws.len() && ws[k].contains(i)
}

/// The facts about the rounds from a placement: each wave holds nodes that
/// were unplaced, no node is in two waves, each wave is in index order, the
/// final placement is the start plus all waves, every dep of a node of wave
/// `k` is placed before wave `k`, and a node of a later wave was not ready
/// one wave earlier.
pub open spec fn rounds_ok(d: DagV, placed: Seq<bool>, ws: Seq<Seq<int>>, fin: Seq<bool>) -> bool {
    &&& fin.len() == placed.len()
    &&& forall|k: int, i: int| #[trigger] in_wave(ws, k, i) ==> 0 <= i < placed.len() && !placed[i]
    &&& forall|k1: int, k2: int, i: int|
        #[trigger] in_wave(ws, k1, i) && #[trigger] in_wave(ws, k2, i) ==> k1 == k2
    &&& forall|k: int, a: int, b: int|
        0 <= k < ws.len() && 0 <= a < b < ws[k].len() ==> #[trigger] ws[k][a] < #[trigger] ws[k][b]
    &&& forall|i: int|
        0 <= i < placed.len() ==> (#[trigger] fin[i] <==> (placed[i] || exists|k: int|
            in_wave(ws, k, i)))
    &&& forall|k: int| 0 <= k < ws.len() ==> #[trigger] ws[k].len() > 0
}

pub proof fn lemma_rounds(d: DagV, placed: Seq<bool>)
    requires
        placed.len() == d.nodes.len(),
    ensures
        rounds_ok(d, placed, rounds(d, placed).0, rounds(d, placed).1),
        ready_from(d, rounds(d, placed).1, 0).len() == 0,
        rounds(d, placed).0.len() > 0 ==> rounds(d, placed).0[0] == ready_from(d, placed, 0),
        forall|k: int|
            0 < k < rounds(d, placed).0.len() ==> #[trigger] rounds(d, placed).0[k] == ready_from(
                d,
                prefix_placed(placed, rounds(d, placed).0, k),
                0,
            ),
    decreases unplaced(placed),
{
    let w = ready_from(d, placed, 0);
    lemma_ready_from_props(d, placed, 0);
    if w.len() == 0 {
        let r = rounds(d, placed);
        assert(r.0 == Seq::<Seq<int>>::empty());
    } else {
        lemma_round_progress(d, placed);
        let p2 = mark(placed, w);
        lemma_rounds(d, p2);
        let r2 = rounds(d, p2);
        let r = rounds(d, placed);
        assert(r.0 == seq![w] + r2.0);
        assert(r.1 == r2.1);
        let ws = r.0;
        assert forall|k: int, i: int| #[trigger] in_wave(ws, k, i) implies 0 <= i < placed.len()
            && !placed[i] by {
            if k == 0 {
                let idx = choose|idx: int| 0 <= idx < w.len() && w[idx] == i;
            } else {
                assert(ws[k] == r2.0[k - 1]);
                assert(in_wave(r2.0, k - 1, i));
                assert(!p2[i]);
            }
        }
        assert forall|k1: int, k2: int, i: int|
            #[trigger] in_wave(ws, k1, i) && #[trigger] in_wave(ws, k2, i) implies k1 == k2 by {
            if k1 == 0 && k2 != 0 {
                assert(ws[k2] == r2.0[k2 - 1]);
                assert(in_wave(r2.0, k2 - 1, i));
                assert(p2[i]);
            } else if k2 == 0 && k1 != 0 {
                assert(ws[k1] == r2.0[k1 - 1]);
                assert(in_wave(r2.0, k1 - 1, i));
                assert(p2[i]);
            } else if k1 != 0 && k2 != 0 {
                assert(ws[k1] == r2.0[k1 - 1]);
                assert(ws[k2] == r2.0[k2 - 1]);
                assert(in_wave(r2.0, k1 - 1, i));
                assert(in_wave(r2.0, k2 - 1, i));
            }
        }
        assert forall|k: int, a: int, b: int|
            0 <= k < ws.len() && 0 <= a < b < ws[k].len() implies #[trigger] ws[k][a]
            < #[trigger] ws[k][b] by {
            if k > 0 {
                assert(ws[k] == r2.0[k - 1]);
            }
        }
        assert forall|i: int| 0 <= i < placed.len() implies (#[trigger] r.1[i] <==> (placed[i]
            || exists|k: int| in_wave(ws, k, i))) by {
            if r.1[i] {
                if !placed[i] {
                    if w.contains(i) {
                        assert(in_wave(ws, 0, i));
                    } else {
                        let k = choose|k: int| in_wave(r2.0, k, i);
                        assert(ws[k + 1] == r2.0[k]);
                        assert(in_wave(ws, k + 1, i));
                    }
                }
            } else {
                assert(!p2[i]);
                if exists|k: int| in_wave(ws, k, i) {
                    let k = choose|k: int| in_wave(ws, k, i);
                    if k == 0 {
                        assert(w.contains(i));
                    } else {
                        assert(ws[k] == r2.0[k - 1]);
                        assert(in_wave(r2.0, k - 1, i));
                    }
                }
            }
        }
        assert forall|k: int| 0 <= k < ws.len() implies #[trigger] ws[k].len() > 0 by {
            if k > 0 {
                assert(ws[k] == r2.0[k - 1]);
            }
        }
        assert forall|k: int| 0 < k < ws.len() implies #[trigger] ws[k] == ready_from(
            d,
            prefix_placed(placed, ws, k),
            0,
        ) by {
            assert(ws[k] == r2.0[k - 1]);
            lemma_prefix_shift(placed, w, r2.0, k);
            if k - 1 > 0 {
                assert(r2.0[k - 1] == ready_from(d, prefix_placed(p2, r2.0, k - 1), 0));
            } else {
                assert(prefix_placed(p2, r2.0, 0) =~= p2);
            }
        }
    }
}

/// The placement before wave `k`: the start plus waves `0..k`.
pub open spec fn prefix_placed(placed: Seq<bool>, ws: Seq<Seq<int>>, k: int) -> Seq<bool> {
    Seq::new(placed.len(), |i: int| placed[i] || exists|j: int| 0 <= j < k && in_wave(ws, j, i))
}

pub proof fn lemma_prefix_shift(placed: Seq<bool>, w: Seq<int>, rest: Seq<Seq<int>>, k: int)
    requires
        0 < k <= rest.len() + 1,
    ensures
        prefix_placed(placed, seq![w] + rest, k) == prefix_placed(mark(placed, w), rest, k - 1),
{
    let ws = seq![w] + rest;
    let a = prefix_placed(placed, ws, k);
    let b = prefix_placed(mark(placed, w), rest, k - 1);
    assert forall|i: int| 0 <= i < placed.len() implies a[i] == b[i] by {
        if a[i] {
            if !placed[i] {
                let j = choose|j: int| 0 <= j < k && in_wave(ws, j, i);
                if j == 0 {
                    assert(w.contains(i));
                } else {
                    assert(ws[j] == rest[j - 1]);
                    assert(in_wave(rest, j - 1, i));
                }
            }
        }
        if b[i] {
            if !mark(placed, w)[i] {
                let j = choose|j: int| 0 <= j < k - 1 && in_wave(rest, j, i);
                assert(ws[j + 1] == rest[j]);
                assert(in_wave(ws, j + 1, i));
            } else if !placed[i] {
                assert(in_wave(ws, 0, i));
            }
        }
    }
    assert(a =~= b);
}

/// The waves of the graph as node indices.
pub open spec fn wave_indices(d: DagV) -> Seq<Seq<int>> {
    rounds(d, none_placed(d.nodes.len())).0
}

/// Node `i` is in some wave.
pub open spec fn in_some_wave(d: DagV, i: int) -> bool {
    exists|k: int| #[trigger] in_wave(wave_indices(d), k, i)
}

/// `name` is the name of a node in a wave before wave `k`.
pub open spec fn dep_placed_before(d: DagV, k: int, name: Seq<char>) -> bool {
    exists|k2: int, m: int|
        #![trigger in_wave(wave_indices(d), k2, m)]
        k2 < k && in_wave(wave_indices(d), k2, m) && d.nodes[m] == name
}

/// Law: when the waves exist, every node is in exactly one wave, each wave is
/// non-empty and in name order, every dep of a node is a node of a strictly
/// earlier wave, and every node after the first wave depends on a node of the
/// wave just before it.
pub proof fn law_waves(d: DagV)
    requires
        dag_wf(d),
        waves_spec(d) is Some,
    ensures
        forall|i: int| 0 <= i < d.nodes.len() ==> #[trigger] in_some_wave(d, i),
        forall|k1: int, k2: int, i: int|
            #[trigger] in_wave(wave_indices(d), k1, i) && #[trigger] in_wave(wave_indices(d), k2, i)
                ==> k1 == k2,
        forall|k: int| 0 <= k < wave_indices(d).len() ==> #[trigger] wave_indices(d)[k].len() > 0,
        forall|k: int, a: int, b: int|
            0 <= k < wave_indices(d).len() && 0 <= a < b < wave_indices(d)[k].len() ==> lt(
                d.nodes[#[trigger] wave_indices(d)[k][a]],
                d.nodes[#[trigger] wave_indices(d)[k][b]],
            ),
        forall|k: int, i: int, j: int|
            #![trigger in_wave(wave_indices(d), k, i), d.deps[i][j]]
            in_wave(wave_indices(d), k, i) && 0 <= j < d.deps[i].len() ==> dep_placed_before(
                d,
                k,
                d.deps[i][j],
            ),
        forall|k: int, i: int|
            #![trigger in_wave(wave_indices(d), k, i)]
            in_wave(wave_indices(d), k, i) && k > 0 ==> exists|j: int, m: int|
                #![trigger in_wave(wave_indices(d), k - 1, m), d.deps[i][j]]
                0 <= j < d.deps[i].len() && in_wave(wave_indices(d), k - 1, m) && d.nodes[m]
                    == d.deps[i][j],
{
    let n = d.nodes.len();
    let p0 = none_placed(n);
    lemma_rounds(d, p0);
    let r = rounds(d, p0);
    let ws = wave_indices(d);
    assert(ws == r.0);
    assert forall|i: int| 0 <= i < n implies #[trigger] in_some_wave(d, i) by {
        assert(r.1[i]);
    }
    assert forall|k: int, a: int, b: int|
        0 <= k < ws.len() && 0 <= a < b < ws[k].len() implies lt(
        d.nodes[#[trigger] ws[k][a]],
        d.nodes[#[trigger] ws[k][b]],
    ) by {
        assert(in_wave(ws, k, ws[k][a]));
        assert(in_wave(ws, k, ws[k][b]));
        assert(ws[k][a] < ws[k][b]);
    }
    assert forall|k: int, i: int, j: int|
        #![trigger in_wave(ws, k, i), d.deps[i][j]]
        in_wave(ws, k, i) && 0 <= j < d.deps[i].len() implies dep_placed_before(
        d,
        k,
        d.deps[i][j],
    ) by {
        let pk = prefix_placed(p0, ws, k);
        if k == 0 {
            assert(pk =~= p0);
            lemma_ready_from_props(d, p0, 0);
            let idx = choose|idx: int| 0 <= idx < ws[0].len() && ws[0][idx] == i;
            assert(ready(d, p0, i));
            assert(placed_name(d, p0, d.deps[i][j]));
        } else {
            lemma_ready_from_props(d, pk, 0);
            let idx = choose|idx: int| 0 <= idx < ws[k].len() && ws[k][idx] == i;
            assert(ready(d, pk, i));
            assert(placed_name(d, pk, d.deps[i][j]));
            let m = choose|m: int| 0 <= m < n && pk[m] && d.nodes[m] == d.deps[i][j];
            let k2 = choose|k2: int| 0 <= k2 < k && in_wave(ws, k2, m);
        }
    }
    assert forall|k: int, i: int|
        #![trigger in_wave(ws, k, i)]
        in_wave(ws, k, i) && k > 0 implies exists|j: int, m: int|
        #![trigger in_wave(ws, k - 1, m), d.deps[i][j]]
        0 <= j < d.deps[i].len() && in_wave(ws, k - 1, m) && d.nodes[m] == d.deps[i][j] by {
        let pk = prefix_placed(p0, ws, k);
        let pk1 = prefix_placed(p0, ws, k - 1);
        lemma_ready_from_props(d, pk, 0);
        lemma_ready_from_props(d, pk1, 0);
        let idx = choose|idx: int| 0 <= idx < ws[k].len() && ws[k][idx] == i;
        assert(ready(d, pk, i));
        // i was not ready one wave earlier
        if k - 1 == 0 {
            assert(pk1 =~= p0);
        }
        assert(ws[k - 1] == ready_from(d, pk1, 0));
        assert(!pk1[i]) by {
            if pk1[i] {
                let j0 = choose|j0: int| 0 <= j0 < k - 1 && in_wave(ws, j0, i);
            }
        }
        if ready(d, pk1, i) {
            assert(ws[k - 1].contains(i));
            assert(in_wave(ws, k - 1, i));
        }
        let j = choose|j: int| 0 <= j < d.deps[i].len() && !placed_name(d, pk1, d.deps[i][j]);
        assert(placed_name(d, pk, d.deps[i][j]));
        let m = choose|m: int| 0 <= m < n && pk[m] && d.nodes[m] == d.deps[i][j];
        assert(!pk1[m]);
        let k2 = choose|k2: int| 0 <= k2 < k && in_wave(ws, k2, m);
        if k2 < k - 1 {
            assert(pk1[m]);
        }
    }
}

/// An order of all nodes (each exactly once) in which every dep of a node is
/// a node that comes before it.
pub open spec fn is_topo_order(d: DagV, order: Seq<int>) -> bool {
    &&& order.len() == d.nodes.len()
    &&& forall|a: int| 0 <= a < order.len() ==> 0 <= #[trigger] order[a] < d.nodes.len()
    &&& forall|a: int, b: int| 0 <= a < b < order.len() ==> #[trigger] order[a] != #[trigger] order[b]
    &&& forall|a: int, j: int|
        0 <= a < order.len() && 0 <= j < d.deps[order[a]].len() ==> #[trigger] dep_earlier(
            d,
            order,
            a,
            j,
        )
}

/// Dep `j` of the node at position `a` of `order` names a node at an earlier
/// position.
pub open spec fn dep_earlier(d: DagV, order: Seq<int>, a: int, j: int) -> bool {
    exists|b: int| 0 <= b < a && d.nodes[#[trigger] order[b]] == d.deps[order[a]][j]
}

/// Law: when no waves exist, the graph has no topological order (it has a
/// cycle or a dep that names no node).
pub proof fn law_no_waves_no_order(d: DagV, order: Seq<int>)
    requires
        dag_wf(d),
        waves_spec(d) is None,
    ensures
        !is_topo_order(d, order),
{
    let n = d.nodes.len();
    let p0 = none_placed(n);
    lemma_rounds(d, p0);
    let fin = rounds(d, p0).1;
    if is_topo_order(d, order) {
        // the first node of `order` that is never placed
        assert(!all_placed(fin));
        let u = choose|u: int| 0 <= u < n && !fin[u];
        // every node appears in the order
        lemma_order_covers(d, order, u);
        let a0 = choose|a: int| 0 <= a < n && order[a] == u;
        let a = lemma_first_unplaced(d, order, fin, a0);
        let i = order[a];
        // all deps of i come earlier, hence are placed
        assert forall|j: int| 0 <= j < d.deps[i].len() implies placed_name(
            d,
            fin,
            #[trigger] d.deps[i][j],
        ) by {
            assert(dep_earlier(d, order, a, j));
            let b = choose|b: int| 0 <= b < a && d.nodes[order[b]] == d.deps[i][j];
            assert(fin[order[b]]);
        }
        assert(ready(d, fin, i));
        lemma_ready_from_props(d, fin, 0);
        assert(ready_from(d, fin, 0).contains(i));
    }
}

pub proof fn lemma_order_covers(d: DagV, order: Seq<int>, u: int)
    requires
        is_topo_order(d, order),
        0 <= u < d.nodes.len(),
    ensures
        exists|a: int| 0 <= a < order.len() && order[a] == u,
{
    let n = d.nodes.len();
    if !(exists|a: int| 0 <= a < order.len() && order[a] == u) {
        // `order` is an injection of n positions into n - 1 values
        let s = order.to_set();
        let full = vstd::set_lib::set_int_range(0, n as int);
        vstd::set_lib::lemma_int_range(0, n as int);
        assert(s.subset_of(full.remove(u))) by {
            assert forall|x: int| s.contains(x) implies full.remove(u).contains(x) by {
                let a = choose|a: int| 0 <= a < order.len() && order[a] == x;
            }
        }
        assert(order.no_duplicates()) by {
            assert forall|a: int, b: int| 0 <= a < order.len() && 0 <= b < order.len() && a != b
                implies order[a] != order[b] by {
                if a < b {
                } else {
                }
            }
        }
        order.unique_seq_to_set();
        vstd::set_lib::lemma_len_subset(s, full.remove(u));
    }
}

pub proof fn lemma_first_unplaced(d: DagV, order: Seq<int>, fin: Seq<bool>, a0: int) -> (a: int)
    requires
        is_topo_order(d, order),
        fin.len() == d.nodes.len(),
        0 <= a0 < order.len(),
        !fin[order[a0]],
    ensures
        0 <= a <= a0,
        !fin[order[a]],
        forall|b: int| 0 <= b < a ==> fin[#[trigger] order[b]],
    decreases a0,
{
    if forall|b: int| 0 <= b < a0 ==> fin[#[trigger] order[b]] {
        a0
    } else {
        let b = choose|b: int| 0 <= b < a0 && !fin[order[b]];
        lemma_first_unplaced(d, order, fin, b)
    }
}

// ---------------------------------------------------------------------------
// Topological order
// ---------------------------------------------------------------------------

/// The sequences of `ws`, one after the other.
pub open spec fn concat<A>(ws: Seq<Seq<A>>) -> Seq<A>
    decreases ws.len(),
{
    if ws.len() == 0 {
        seq![]
    } else {
        concat(ws.drop_last()) + ws.last()
    }
}

pub proof fn lemma_concat_index<A>(ws: Seq<Seq<A>>, p: int) -> (ka: (int, int))
    requires
        0 <= p < concat(ws).len(),
    ensures
        0 <= ka.0 < ws.len(),
        0 <= ka.1 < ws[ka.0].len(),
        concat(ws)[p] == ws[ka.0][ka.1],
    decreases ws.len(),
{
    let c0 = concat(ws.drop_last());
    if p < c0.len() {
        let r = lemma_concat_index(ws.drop_last(), p);
        assert(ws.drop_last()[r.0] == ws[r.0]);
        r
    } else {
        (ws.len() - 1, p - c0.len())
    }
}

pub proof fn lemma_concat_cover<A>(ws: Seq<Seq<A>>, k: int, a: int) -> (p: int)
    requires
        0 <= k < ws.len(),
        0 <= a < ws[k].len(),
    ensures
        0 <= p < concat(ws).len(),
        concat(ws)[p] == ws[k][a],
    decreases ws.len(),
{
    let c0 = concat(ws.drop_last());
    if k < ws.len() - 1 {
        assert(ws.drop_last()[k] == ws[k]);
        lemma_concat_cover(ws.drop_last(), k, a)
    } else {
        c0.len() + a
    }
}

pub proof fn lemma_concat_order<A>(ws: Seq<Seq<A>>, p1: int, p2: int) -> (r: (int, int, int, int))
    requires
        0 <= p1 < p2 < concat(ws).len(),
    ensures
        0 <= r.0 < ws.len(),
        0 <= r.1 < ws[r.0].len(),
        0 <= r.2 < ws.len(),
        0 <= r.3 < ws[r.2].len(),
        concat(ws)[p1] == ws[r.0][r.1],
        concat(ws)[p2] == ws[r.2][r.3],
        r.0 < r.2 || (r.0 == r.2 && r.1 < r.3),
    decreases ws.len(),
{
    let c0 = concat(ws.drop_last());
    if p2 < c0.len() {
        let q = lemma_concat_order(ws.drop_last(), p1, p2);
        assert(ws.drop_last()[q.0] == ws[q.0]);
        assert(ws.drop_last()[q.2] == ws[q.2]);
        q
    } else if p1 < c0.len() {
        let q = lemma_concat_index(ws.drop_last(), p1);
        assert(ws.drop_last()[q.0] == ws[q.0]);
        (q.0, q.1, ws.len() - 1, p2 - c0.len())
    } else {
        (ws.len() - 1, p1 - c0.len(), ws.len() - 1, p2 - c0.len())
    }
}

pub proof fn lemma_concat_names(d: DagV, ws: Seq<Seq<int>>)
    ensures
        concat(ws.map_values(|w: Seq<int>| wave_names(d, w))) == concat(ws).map_values(
            |i: int| d.nodes[i],
        ),
    decreases ws.len(),
{
    if ws.len() > 0 {
        lemma_concat_names(d, ws.drop_last());
        assert(ws.map_values(|w: Seq<int>| wave_names(d, w)).drop_last() =~= ws.drop_last().map_values(
            |w: Seq<int>| wave_names(d, w),
        ));
        assert(concat(ws.map_values(|w: Seq<int>| wave_names(d, w))) =~= concat(ws).map_values(
            |i: int| d.nodes[i],
        ));
    }
}

/// Law: when the waves exist, the waves one after the other are a
/// topological order of the graph: every node once, deps before dependents.
pub proof fn law_topo_sort(d: DagV)
    requires
        dag_wf(d),
        waves_spec(d) is Some,
    ensures
        is_topo_order(d, concat(wave_indices(d))),
{
    let n = d.nodes.len();
    let ws = wave_indices(d);
    let o = concat(ws);
    law_waves(d);
    lemma_rounds(d, none_placed(n));
    assert forall|a: int| 0 <= a < o.len() implies 0 <= #[trigger] o[a] < n by {
        let q = lemma_concat_index(ws, a);
        assert(in_wave(ws, q.0, o[a]));
    }
    assert forall|a: int, b: int| 0 <= a < b < o.len() implies #[trigger] o[a] != #[trigger] o[b] by {
        let q = lemma_concat_order(ws, a, b);
        assert(in_wave(ws, q.0, o[a]));
        assert(in_wave(ws, q.2, o[b]));
        if q.0 == q.2 {
            assert(ws[q.0][q.1] < ws[q.0][q.3]);
        }
    }
    assert forall|a: int, j: int| 0 <= a < o.len() && 0 <= j < d.deps[o[a]].len() implies #[trigger] dep_earlier(
        d,
        o,
        a,
        j,
    ) by {
        let i = o[a];
        let q = lemma_concat_index(ws, a);
        let k = q.0;
        assert(in_wave(ws, k, i));
        assert(dep_placed_before(d, k, d.deps[i][j]));
        let (k2, m) = choose|k2: int, m: int|
            #![trigger in_wave(wave_indices(d), k2, m)]
            k2 < k && in_wave(wave_indices(d), k2, m) && d.nodes[m] == d.deps[i][j];
        let x = choose|x: int| 0 <= x < ws[k2].len() && ws[k2][x] == m;
        let p = lemma_concat_cover(ws, k2, x);
        if p == a {
            assert(in_wave(ws, k2, i));
        } else if p > a {
            let r = lemma_concat_order(ws, a, p);
            assert(in_wave(ws, r.0, i));
            assert(in_wave(ws, r.2, m));
        }
        assert(0 <= p < a && d.nodes[o[p]] == d.deps[o[a]][j]);
    }
    // every node occurs, once: the length is the number of nodes
    let s = o.to_set();
    let full = vstd::set_lib::set_int_range(0, n as int);
    vstd::set_lib::lemma_int_range(0, n as int);
    assert(s =~= full) by {
        assert forall|x: int| full.contains(x) implies s.contains(x) by {
            assert(in_some_wave(d, x));
            let k = choose|k: int| #[trigger] in_wave(ws, k, x);
            let y = choose|y: int| 0 <= y < ws[k].len() && ws[k][y] == x;
            let p = lemma_concat_cover(ws, k, y);
            assert(o[p] == x);
        }
        assert forall|x: int| s.contains(x) implies full.contains(x) by {
            let a = choose|a: int| 0 <= a < o.len() && o[a] == x;
        }
    }
    assert(o.no_duplicates()) by {
        assert forall|a: int, b: int| 0 <= a < o.len() && 0 <= b < o.len() && a != b implies o[a]
            != o[b] by {
            if a < b {
                assert(o[a] != o[b]);
            } else {
                assert(o[b] != o[a]);
            }
        }
    }
    o.unique_seq_to_set();
    assert(o.len() == s.len());
    assert(s.len() == n);
}

// ---------------------------------------------------------------------------
// Reachability
// ---------------------------------------------------------------------------

/// `c` is a chain of nodes from the node named `s` to node `m`.
pub open spec fn is_path_from(d: DagV, s: Seq<char>, c: Seq<usize>, m: int) -> bool {
    &&& c.len() >= 1
    &&& forall|i: int| 0 <= i < c.len() ==> #[trigger] c[i] < d.nodes.len()
    &&& d.nodes[c[0] as int] == s
    &&& c.last() == m
    &&& is_chain(d, c)
}

/// Node `m` is reachable along deps from the node named `s` (itself included).
pub open spec fn reaches(d: DagV, s: Seq<char>, m: int) -> bool {
    exists|c: Seq<usize>| #[trigger] is_path_from(d, s, c, m)
}

/// The names of the nodes of `order` reachable from `s`, in that order.
pub open spec fn reachable_names(d: DagV, s: Seq<char>, order: Seq<int>) -> Seq<Seq<char>>
    decreases order.len(),
{
    if order.len() == 0 {
        seq![]
    } else if reaches(d, s, order.last()) {
        reachable_names(d, s, order.drop_last()).push(d.nodes[order.last()])
    } else {
        reachable_names(d, s, order.drop_last())
    }
}

/// Some node named `name` is reachable from `s`.
pub open spec fn reached_name(d: DagV, s: Seq<char>, name: Seq<char>) -> bool {
    exists|m: int| 0 <= m < d.nodes.len() && d.nodes[m] == name && #[trigger] reaches(d, s, m)
}

/// Keeps the names of nodes reachable from `s`.
pub open spec fn reached_pred(d: DagV, s: Seq<char>) -> spec_fn(Seq<char>) -> bool {
    |name: Seq<char>| reached_name(d, s, name)
}

/// The reachable names of an order are the order's names filtered to those
/// reachable.
proof fn lemma_reachable_names_filter(d: DagV, s: Seq<char>, order: Seq<int>)
    requires
        dag_wf(d),
        forall|i: int| 0 <= i < order.len() ==> 0 <= #[trigger] order[i] < d.nodes.len(),
    ensures
        reachable_names(d, s, order) == order.map_values(|i: int| d.nodes[i]).filter(reached_pred(d, s)),
    decreases order.len(),
{
    let m = order.map_values(|i: int| d.nodes[i]);
    if order.len() == 0 {
        reveal(Seq::filter);
        assert(m =~= Seq::<Seq<char>>::empty());
    } else {
        let o2 = order.drop_last();
        assert forall|i: int| 0 <= i < o2.len() implies 0 <= #[trigger] o2[i] < d.nodes.len() by {
            assert(o2[i] == order[i]);
        }
        lemma_reachable_names_filter(d, s, o2);
        let last = order.last();
        assert(m =~= o2.map_values(|i: int| d.nodes[i]).push(d.nodes[last]));
        o2.map_values(|i: int| d.nodes[i]).lemma_filter_push(d.nodes[last], reached_pred(d, s));
        assert(reached_pred(d, s)(d.nodes[last]) == reached_name(d, s, d.nodes[last]));
        if reached_name(d, s, d.nodes[last]) {
            let k = choose|k: int| 0 <= k < d.nodes.len() && d.nodes[k] == d.nodes[last] && #[trigger] reaches(d, s, k);
            lemma_names_distinct(d, k, last);
        }
        if reaches(d, s, last) {
            assert(reached_name(d, s, d.nodes[last]));
        }
    }
}

/// Law: when the graph has waves, the recipes reachable from `start` are
/// the topological order with the unreachable ones left out; when it has
/// none, both searches report a cycle (see `topo_sort`, `reachable_from`).
pub proof fn law_reachable_is_filtered_order(d: DagV, start: Seq<char>)
    requires
        dag_wf(d),
        waves_spec(d) is Some,
    ensures
        reachable_names(d, start, concat(wave_indices(d))) == concat(waves_spec(d).unwrap()).filter(
            reached_pred(d, start),
        ),
{
    law_topo_sort(d);
    lemma_concat_names(d, wave_indices(d));
    lemma_reachable_names_filter(d, start, concat(wave_indices(d)));
}

/// Node names are distinct.
pub proof fn lemma_names_distinct(d: DagV, a: int, b: int)
    requires
        dag_wf(d),
        0 <= a < d.nodes.len(),
        0 <= b < d.nodes.len(),
        d.nodes[a] == d.nodes[b],
    ensures
        a == b,
{
    if a < b {
        assert(lt(d.nodes[a], d.nodes[b]));
        lemma_lt_irrefl(d.nodes[a]);
    } else if b < a {
        assert(lt(d.nodes[b], d.nodes[a]));
        lemma_lt_irrefl(d.nodes[a]);
    }
}

/// Every node of a chain from `start` lies in a set that holds the start
/// node and is closed under deps.
pub proof fn lemma_path_seen(
    d: DagV,
    di: Seq<Vec<Option<usize>>>,
    seen: Seq<bool>,
    s: Seq<char>,
    start_ix: int,
    c: Seq<usize>,
)
    requires
        dag_wf(d),
        dep_index_ok(d, di),
        seen.len() == d.nodes.len(),
        start_ix >= 0 ==> 0 <= start_ix < d.nodes.len() && d.nodes[start_ix] == s && seen[start_ix],
        start_ix < 0 ==> forall|m: int| 0 <= m < d.nodes.len() ==> d.nodes[m] != s,
        forall|m: int, j: int|
            0 <= m < d.nodes.len() && seen[m] && 0 <= j < di[m]@.len() ==> match #[trigger] di[m]@[j] {
                Some(m2) => seen[m2 as int],
                None => true,
            },
        is_path_from(d, s, c, c.last() as int),
    ensures
        seen[c.last() as int],
    decreases c.len(),
{
    if c.len() == 1 {
        lemma_names_distinct(d, c[0] as int, start_ix);
    } else {
        let c0 = c.drop_last();
        assert(is_path_from(d, s, c0, c0.last() as int)) by {
            assert forall|i: int| 0 <= i < c0.len() - 1 implies #[trigger] depends_on(
                d,
                c0[i] as int,
                c0[i + 1] as int,
            ) by {
                assert(depends_on(d, c[i] as int, c[i + 1] as int));
            }
        }
        lemma_path_seen(d, di, seen, s, start_ix, c0);
        let x = c0.last() as int;
        let y = c.last() as int;
        let i0 = c.len() - 2;
        assert(depends_on(d, c[i0] as int, c[i0 + 1] as int));
        let j = choose|j: int| 0 <= j < d.deps[x].len() && d.deps[x][j] == d.nodes[y];
        match di[x]@[j] {
            Some(m2) => {
                lemma_names_distinct(d, m2 as int, y);
            },
            None => {},
        }
    }
}

// ---------------------------------------------------------------------------
// Cycles
// ---------------------------------------------------------------------------

/// Node `a` has a dep naming node `b`.
pub open spec fn depends_on(d: DagV, a: int, b: int) -> bool {
    exists|j: int| 0 <= j < d.deps[a].len() && d.deps[a][j] == d.nodes[b]
}

/// Each node of `p` after the first is a dep of the node before it.
pub open spec fn is_chain(d: DagV, p: Seq<usize>) -> bool {
    forall|i: int| 0 <= i < p.len() - 1 ==> #[trigger] depends_on(d, p[i] as int, p[i + 1] as int)
}

/// `c` is a cycle of nodes: a chain of at least two nodes that ends where it
/// starts.
pub open spec fn is_cycle(d: DagV, c: Seq<usize>) -> bool {
    &&& c.len() >= 2
    &&& c[0] == c[c.len() - 1]
    &&& forall|i: int| 0 <= i < c.len() ==> #[trigger] c[i] < d.nodes.len()
    &&& is_chain(d, c)
}

/// The indices from `k` on of the nodes not placed, in order.
pub open spec fn unplaced_indices(placed: Seq<bool>, k: int) -> Seq<usize>
    decreases placed.len() - k,
{
    if k < 0 || k >= placed.len() {
        seq![]
    } else if !placed[k] {
        seq![k as usize] + unplaced_indices(placed, k + 1)
    } else {
        unplaced_indices(placed, k + 1)
    }
}

pub proof fn lemma_unplaced_set(s: Seq<bool>, k: int)
    requires
        0 <= k < s.len(),
        !s[k],
    ensures
        unplaced(s.update(k, true)) < unplaced(s),
    decreases s.len(),
{
    let u = s.update(k, true);
    if k == s.len() - 1 {
        assert(u.drop_last() =~= s.drop_last());
    } else {
        lemma_unplaced_set(s.drop_last(), k);
        assert(u.drop_last() =~= s.drop_last().update(k, true));
    }
}

pub proof fn lemma_unplaced_indices(placed: Seq<bool>, k: int)
    requires
        0 <= k,
        placed.len() <= usize::MAX,
    ensures
        forall|i: int|
            0 <= i < unplaced_indices(placed, k).len() ==> k <= #[trigger] unplaced_indices(placed, k)[i]
                < placed.len() && !placed[unplaced_indices(placed, k)[i] as int],
    decreases placed.len() - k,
{
    if k < placed.len() {
        lemma_unplaced_indices(placed, k + 1);
        let r = unplaced_indices(placed, k);
        let t = unplaced_indices(placed, k + 1);
        if !placed[k] {
            assert forall|i: int| 0 <= i < r.len() implies k <= #[trigger] r[i] < placed.len()
                && !placed[r[i] as int] by {
                if i > 0 {
                    assert(r[i] == t[i - 1]);
                }
            }
        }
    }
}

/// The names of the nodes `c`.
pub open spec fn node_names(d: DagV, c: Seq<usize>) -> Seq<Seq<char>> {
    c.map_values(|i: usize| d.nodes[i as int])
}

/// `c` is a simple cycle: a cycle whose nodes, but for the last, which
/// repeats the first, are all distinct.
pub open spec fn is_simple_cycle(d: DagV, c: Seq<usize>) -> bool {
    &&& is_cycle(d, c)
    &&& forall|i: int, j: int| 0 <= i < j < c.len() - 1 ==> #[trigger] c[i] != #[trigger] c[j]
}

/// The graph has no cycle.
pub open spec fn acyclic(d: DagV) -> bool {
    forall|c: Seq<usize>| !#[trigger] is_cycle(d, c)
}

/// `text` reports why some node can never run: the names along one simple
/// cycle of the graph, or, when the graph has no cycle (a dep names no
/// node), the names of every node that can never run.
pub open spec fn cycle_report(d: DagV, text: Seq<char>) -> bool {
    exists|c: Seq<usize>|
        (is_simple_cycle(d, c) || (acyclic(d) && c == unplaced_indices(
            rounds(d, none_placed(d.nodes.len())).1,
            0,
        ))) && text == #[trigger] join(node_names(d, c), " -> "@)
}

/// The nodes of a cycle stay unplaced through the rounds.
proof fn lemma_cycle_never_placed(d: DagV, placed: Seq<bool>, c: Seq<usize>)
    requires
        dag_wf(d),
        placed.len() == d.nodes.len(),
        is_cycle(d, c),
        forall|i: int| 0 <= i < c.len() ==> !#[trigger] placed[c[i] as int],
    ensures
        forall|i: int| 0 <= i < c.len() ==> !#[trigger] rounds(d, placed).1[c[i] as int],
    decreases unplaced(placed),
{
    let w = ready_from(d, placed, 0);
    if w.len() == 0 {
    } else {
        lemma_ready_from_props(d, placed, 0);
        lemma_round_progress(d, placed);
        assert forall|i: int| 0 <= i < c.len() implies !#[trigger] w.contains(c[i] as int) by {
            let k = if i == c.len() - 1 {
                0
            } else {
                i
            };
            assert(c[k] == c[i]);
            lemma_chain_at(d, c, k);
            let x = c[k] as int;
            let y = c[k + 1] as int;
            let j = choose|j: int| 0 <= j < d.deps[x].len() && d.deps[x][j] == d.nodes[y];
            if w.contains(x) {
                let q = choose|q: int| 0 <= q < w.len() && w[q] == x;
                assert(ready(d, placed, w[q]));
                assert(placed_name(d, placed, d.deps[x][j]));
                let m = choose|m: int| 0 <= m < d.nodes.len() && placed[m] && d.nodes[m] == d.deps[x][j];
                lemma_names_distinct(d, m, y);
                assert(!placed[c[k + 1] as int]);
            }
        }
        let p2 = mark(placed, w);
        assert forall|i: int| 0 <= i < c.len() implies !#[trigger] p2[c[i] as int] by {
            assert(!w.contains(c[i] as int));
        }
        lemma_cycle_never_placed(d, p2, c);
        assert(rounds(d, placed).1 == rounds(d, p2).1);
    }
}

/// A cycle of the graph runs through nodes that never get placed, so each of
/// them reaches a cycle through such nodes.
proof fn lemma_cycle_reached(d: DagV, c: Seq<usize>)
    requires
        dag_wf(d),
        is_cycle(d, c),
    ensures
        c[0] < d.nodes.len(),
        !rounds(d, none_placed(d.nodes.len())).1[c[0] as int],
        reaches_unplaced_cycle(d, rounds(d, none_placed(d.nodes.len())).1, c[0] as int),
{
    let p0 = none_placed(d.nodes.len());
    lemma_cycle_never_placed(d, p0, c);
    let fin = rounds(d, p0).1;
    assert forall|i: int| 0 <= i < c.len() implies #[trigger] c[i] < d.nodes.len() && !fin[c[i] as int] by {
    }
    assert(c[0] == c[c.len() - 1]);
    assert(lasso_from(d, fin, c, c[0] as int));
}

/// `w` is a walk of unplaced nodes, each after the first a dep of the one
/// before it.
pub open spec fn unplaced_walk(d: DagV, placed: Seq<bool>, w: Seq<usize>) -> bool {
    &&& w.len() > 0
    &&& forall|i: int| 0 <= i < w.len() ==> #[trigger] w[i] < d.nodes.len() && !placed[w[i] as int]
    &&& is_chain(d, w)
}

/// `w` is a walk of unplaced nodes from `node` that comes back to a node it
/// has already visited.
pub open spec fn lasso_from(d: DagV, placed: Seq<bool>, w: Seq<usize>, node: int) -> bool {
    &&& unplaced_walk(d, placed, w)
    &&& w.len() >= 2
    &&& w[0] == node
    &&& exists|i: int| 0 <= i < w.len() - 1 && #[trigger] w[i] == w[w.len() - 1]
}

/// Following deps through unplaced nodes only, `node` can reach a cycle.
pub open spec fn reaches_unplaced_cycle(d: DagV, placed: Seq<bool>, node: int) -> bool {
    exists|w: Seq<usize>| #[trigger] lasso_from(d, placed, w, node)
}

/// One link of a chain.
proof fn lemma_chain_at(d: DagV, w: Seq<usize>, i: int)
    requires
        is_chain(d, w),
        0 <= i < w.len() - 1,
    ensures
        depends_on(d, w[i] as int, w[i + 1] as int),
{
}

/// One node of an unplaced walk.
proof fn lemma_walk_at(d: DagV, placed: Seq<bool>, w: Seq<usize>, i: int)
    requires
        unplaced_walk(d, placed, w),
        0 <= i < w.len(),
    ensures
        w[i] < d.nodes.len(),
        !placed[w[i] as int],
{
}

/// An unplaced node with a dep that reaches a cycle reaches it too.
proof fn lemma_lasso_extend(d: DagV, placed: Seq<bool>, node: usize, m: int)
    requires
        node < d.nodes.len(),
        node < placed.len(),
        !placed[node as int],
        depends_on(d, node as int, m),
        reaches_unplaced_cycle(d, placed, m),
    ensures
        reaches_unplaced_cycle(d, placed, node as int),
{
    let w = choose|w: Seq<usize>| #[trigger] lasso_from(d, placed, w, m);
    let i = choose|i: int| 0 <= i < w.len() - 1 && #[trigger] w[i] == w[w.len() - 1];
    let w2 = seq![node] + w;
    assert(w2[0] == node);
    assert forall|k: int| 0 <= k < w2.len() implies #[trigger] w2[k] < d.nodes.len()
        && !placed[w2[k] as int] by {
        if k > 0 {
            assert(w2[k] == w[k - 1]);
            lemma_walk_at(d, placed, w, k - 1);
        }
    }
    assert forall|k: int| 0 <= k < w2.len() - 1 implies #[trigger] depends_on(
        d,
        w2[k] as int,
        w2[k + 1] as int,
    ) by {
        if k > 0 {
            assert(w2[k] == w[k - 1] && w2[k + 1] == w[k]);
            lemma_chain_at(d, w, k - 1);
        } else {
            assert(w2[1] == w[0]);
        }
    }
    assert(w2[i + 1] == w2[w2.len() - 1]);
    assert(lasso_from(d, placed, w2, node as int));
}

/// A cycle reached from `node` is reached from its second node, a dep of
/// `node`.
proof fn lemma_lasso_step(d: DagV, placed: Seq<bool>, node: int, w: Seq<usize>)
    requires
        lasso_from(d, placed, w, node),
    ensures
        w[1] < d.nodes.len(),
        depends_on(d, node, w[1] as int),
        reaches_unplaced_cycle(d, placed, w[1] as int),
{
    lemma_chain_at(d, w, 0);
    let i = choose|i: int| 0 <= i < w.len() - 1 && #[trigger] w[i] == w[w.len() - 1];
    let t = w.drop_first();
    if i >= 1 {
        assert(t[i - 1] == t[t.len() - 1]);
        assert forall|k: int| 0 <= k < t.len() - 1 implies #[trigger] depends_on(
            d,
            t[k] as int,
            t[k + 1] as int,
        ) by {
            lemma_chain_at(d, w, k + 1);
        }
        assert forall|k: int| 0 <= k < t.len() implies #[trigger] t[k] < d.nodes.len()
            && !placed[t[k] as int] by {
            lemma_walk_at(d, placed, w, k + 1);
        }
        assert(lasso_from(d, placed, t, w[1] as int));
    } else {
        let t2 = t.push(w[1]);
        assert(t2[0] == t2[t2.len() - 1]);
        assert forall|k: int| 0 <= k < t2.len() implies #[trigger] t2[k] < d.nodes.len()
            && !placed[t2[k] as int] by {
            if k < t.len() {
                assert(t2[k] == w[k + 1]);
                lemma_walk_at(d, placed, w, k + 1);
            } else {
                lemma_walk_at(d, placed, w, 1);
            }
        }
        assert forall|k: int| 0 <= k < t2.len() - 1 implies #[trigger] depends_on(
            d,
            t2[k] as int,
            t2[k + 1] as int,
        ) by {
            if k < t.len() - 1 {
                assert(t2[k] == w[k + 1] && t2[k + 1] == w[k + 2]);
                lemma_chain_at(d, w, k + 1);
            } else {
                assert(t2[k] == w[w.len() - 1] && w[w.len() - 1] == w[0]);
            }
        }
        assert(lasso_from(d, placed, t2, w[1] as int));
    }
}

/// `di[k][j]` is the index of the node named by dep `j` of node `k`, if any.
pub open spec fn dep_index_ok(d: DagV, di: Seq<Vec<Option<usize>>>) -> bool {
    &&& di.len() == d.nodes.len()
    &&& forall|k: int| 0 <= k < di.len() ==> (#[trigger] di[k])@.len() == d.deps[k].len()
    &&& forall|k: int, j: int|
        0 <= k < di.len() && 0 <= j < di[k]@.len() ==> match #[trigger] di[k]@[j] {
            Some(m) => m < d.nodes.len() && d.nodes[m as int] == d.deps[k][j],
            None => forall|m: int| 0 <= m < d.nodes.len() ==> d.nodes[m] != d.deps[k][j],
        }
}

// ---------------------------------------------------------------------------
// Implementation
// ---------------------------------------------------------------------------

impl Dag {
    #[verifier::type_invariant]
    spec fn inv(self) -> bool {
        dag_wf(self@)
    }

    /// Build a graph from a map of recipe name to the names it depends on.
    pub fn new(recipes: OrdMap<Vec<String>>) -> (d: Self)
        ensures
            d@.nodes == crate::map::assoc_keys(recipes@),
            d@.deps == recipes@.map_values(|e: (Seq<char>, Seq<String>)| sv(e.1)),
    {
        let n = recipes.len();
        let mut nodes: Vec<String> = Vec::new();
        let mut deps: Vec<Vec<String>> = Vec::new();
        let mut i: usize = 0;
        while i < n
            invariant
                i <= n,
                n == recipes@.len(),
                sorted_keys(recipes@),
                sv(nodes@) == crate::map::assoc_keys(recipes@).take(i as int),
                deps@.map_values(|d: Vec<String>| sv(d@)) == recipes@.map_values(
                    |e: (Seq<char>, Seq<String>)| sv(e.1),
                ).take(i as int),
            decreases n - i,
        {
            let (k, v) = recipes.entry(i);
            let ghost pn = nodes@;
            let ghost pd = deps@;
            let kc = k.clone();
            nodes.push(kc);
            proof {
                crate::text::lemma_sv_push(pn, kc);
            }
            let vc = clone_strings(v);
            deps.push(vc);
            assert(deps@.map_values(|d: Vec<String>| sv(d@)) =~= pd.map_values(
                |d: Vec<String>| sv(d@),
            ).push(sv(v@)));
            assert(recipes@.map_values(|e: (Seq<char>, Seq<String>)| sv(e.1))[i as int] == sv(v@));
            assert(sv(nodes@) =~= crate::map::assoc_keys(recipes@).take(i + 1));
            assert(deps@.map_values(|d: Vec<String>| sv(d@)) =~= recipes@.map_values(
                |e: (Seq<char>, Seq<String>)| sv(e.1),
            ).take(i + 1));
            i += 1;
        }
        assert(crate::map::assoc_keys(recipes@).take(n as int) =~= crate::map::assoc_keys(recipes@));
        assert(recipes@.map_values(|e: (Seq<char>, Seq<String>)| sv(e.1)).take(n as int)
            =~= recipes@.map_values(|e: (Seq<char>, Seq<String>)| sv(e.1)));
        let d = Dag { nodes, deps };
        assert(names_sorted(d@.nodes)) by {
            assert forall|a: int, b: int| 0 <= a < b < d@.nodes.len() implies lt(
                #[trigger] d@.nodes[a],
                #[trigger] d@.nodes[b],
            ) by {
                assert(d@.nodes[a] == recipes@[a].0);
                assert(d@.nodes[b] == recipes@[b].0);
            }
        }
        d
    }

    /// Index of the node named `name`.
    fn index_of(&self, name: &str) -> (r: Option<usize>)
        ensures
            match r {
                Some(m) => m < self@.nodes.len() && self@.nodes[m as int] == name@,
                None => forall|m: int| 0 <= m < self@.nodes.len() ==> self@.nodes[m] != name@,
            },
    {
        let mut m: usize = 0;
        while m < self.nodes.len()
            invariant
                m <= self.nodes.len(),
                self@.nodes == sv(self.nodes@),
                forall|x: int| 0 <= x < m ==> self@.nodes[x] != name@,
            decreases self.nodes.len() - m,
        {
            assert(self@.nodes[m as int] == self.nodes@[m as int]@);
            if str_eq(self.nodes[m].as_str(), name) {
                return Some(m);
            }
            m += 1;
        }
        None
    }

    /// The nodes that are ready under `placed`, in index order.
    fn ready_now(&self, dep_idx: &Vec<Vec<Option<usize>>>, placed: &Vec<bool>) -> (w: Vec<usize>)
        requires
            placed@.len() == self@.nodes.len(),
            dep_idx@.len() == self@.nodes.len(),
            dag_wf(self@),
            forall|k: int|
                0 <= k < dep_idx@.len() ==> (#[trigger] dep_idx@[k])@.len() == self@.deps[k].len(),
            forall|k: int, j: int|
                0 <= k < dep_idx@.len() && 0 <= j < dep_idx@[k]@.len() ==> match #[trigger] dep_idx@[k]@[j] {
                    Some(m) => m < self@.nodes.len() && self@.nodes[m as int] == self@.deps[k][j],
                    None => forall|m: int|
                        0 <= m < self@.nodes.len() ==> self@.nodes[m] != self@.deps[k][j],
                },
        ensures
            w@.map_values(|x: usize| x as int) == ready_from(self@, placed@, 0),
    {
        let ghost d = self@;
        let mut w: Vec<usize> = Vec::new();
        let mut k: usize = 0;
        assert(ready_from(d, placed@, 0) == Seq::<int>::empty() + ready_from(d, placed@, 0));
        while k < self.nodes.len()
            invariant
                k <= self.nodes.len(),
                d == self@,
                dag_wf(d),
                self.nodes@.len() == d.nodes.len(),
                placed@.len() == d.nodes.len(),
                dep_idx@.len() == d.nodes.len(),
                forall|k: int|
                    0 <= k < dep_idx@.len() ==> (#[trigger] dep_idx@[k])@.len() == d.deps[k].len(),
                forall|k: int, j: int|
                    0 <= k < dep_idx@.len() && 0 <= j < dep_idx@[k]@.len() ==> match #[trigger] dep_idx@[k]@[j] {
                        Some(m) => m < d.nodes.len() && d.nodes[m as int] == d.deps[k][j],
                        None => forall|m: int| 0 <= m < d.nodes.len() ==> d.nodes[m] != d.deps[k][j],
                    },
                w@.map_values(|x: usize| x as int) + ready_from(d, placed@, k as int) == ready_from(
                    d,
                    placed@,
                    0,
                ),
            decreases self.nodes.len() - k,
        {
            let mut ok = !placed[k];
            let di = &dep_idx[k];
            let mut j: usize = 0;
            while ok && j < di.len()
                invariant
                    j <= di.len(),
                    d == self@,
                    dag_wf(d),
                    k < d.nodes.len(),
                    placed@.len() == d.nodes.len(),
                    di@.len() == d.deps[k as int].len(),
                    forall|j: int| 0 <= j < di@.len() ==> match #[trigger] di@[j] {
                        Some(m) => m < d.nodes.len() && d.nodes[m as int] == d.deps[k as int][j],
                        None => forall|m: int|
                            0 <= m < d.nodes.len() ==> d.nodes[m] != d.deps[k as int][j],
                    },
                    ok ==> !placed@[k as int] && forall|x: int|
                        0 <= x < j ==> placed_name(d, placed@, #[trigger] d.deps[k as int][x]),
                    !ok ==> !ready(d, placed@, k as int),
                decreases di.len() - j,
            {
                match di[j] {
                    Some(m) => {
                        if !placed[m] {
                            ok = false;
                            proof {
                                if placed_name(d, placed@, d.deps[k as int][j as int]) {
                                    let m2 = choose|m2: int|
                                        0 <= m2 < d.nodes.len() && placed@[m2] && d.nodes[m2]
                                            == d.deps[k as int][j as int];
                                    if m2 != m {
                                        if m2 < m {
                                            assert(lt(d.nodes[m2], d.nodes[m as int]));
                                        } else {
                                            assert(lt(d.nodes[m as int], d.nodes[m2]));
                                        }
                                        lemma_lt_irrefl(d.nodes[m2]);
                                    }
                                }
                                assert(!placed_name(d, placed@, d.deps[k as int][j as int]));
                                assert(!ready(d, placed@, k as int));
                            }
                        }
                    },
                    None => {
                        ok = false;
                        assert(!placed_name(d, placed@, d.deps[k as int][j as int]));
                        assert(!ready(d, placed@, k as int));
                    },
                }
                j += 1;
            }
            let ghost prev = w@;
            if ok {
                w.push(k);
                assert(w@.map_values(|x: usize| x as int) =~= prev.map_values(|x: usize| x as int).push(
                    k as int,
                ));
            }
            assert(ready(d, placed@, k as int) == ok);
            k += 1;
        }
        assert(w@.map_values(|x: usize| x as int) =~= ready_from(d, placed@, 0));
        w
    }

    /// The waves as node indices: each wave the nodes whose deps all ran in
    /// earlier waves, in index (name) order.
    fn wave_lists(&self) -> (r: Result<Vec<Vec<usize>>, Error>)
        ensures
            match r {
                Ok(ws) => {
                    &&& waves_spec(self@) is Some
                    &&& ws@.map_values(|w: Vec<usize>| ints(w@)) == wave_indices(self@)
                },
                Err(e) => {
                    &&& waves_spec(self@) is None
                    &&& e matches Error::CycleDetected { cycle }
                    &&& cycle_report(self@, cycle@)
                },
            },
    {
        proof {
            use_type_invariant(self);
        }
        let ghost d = self@;
        let n = self.nodes.len();
        let dep_idx = self.dep_indices();
        let mut placed = all_false(n);
        let mut out: Vec<Vec<usize>> = Vec::new();
        let ghost mut done: Seq<Seq<int>> = seq![];
        let ghost p0 = placed@;
        loop
            invariant
                d == self@,
                dag_wf(d),
                n == d.nodes.len(),
                placed@.len() == n,
                dep_idx@.len() == n,
                self.nodes@.len() == n,
                forall|x: int| 0 <= x < n ==> (#[trigger] dep_idx@[x])@.len() == d.deps[x].len(),
                forall|x: int, j: int|
                    0 <= x < n && 0 <= j < dep_idx@[x]@.len() ==> match #[trigger] dep_idx@[x]@[j] {
                        Some(m) => m < n && d.nodes[m as int] == d.deps[x][j],
                        None => forall|m: int| 0 <= m < n ==> d.nodes[m] != d.deps[x][j],
                    },
                rounds(d, p0) == (done + rounds(d, placed@).0, rounds(d, placed@).1),
                out@.map_values(|w: Vec<usize>| ints(w@)) == done,
            ensures
                rounds(d, placed@).0.len() == 0,
            decreases unplaced(placed@),
        {
            let w = self.ready_now(&dep_idx, &placed);
            let ghost wv = ints(w@);
            proof {
                lemma_ready_from_props(d, placed@, 0);
            }
            if w.len() == 0 {
                assert(rounds(d, placed@).0 =~= Seq::<Seq<int>>::empty());
                break ;
            }
            proof {
                lemma_round_progress(d, placed@);
            }
            let ghost before = placed@;
            // mark the wave
            let mut b: usize = 0;
            while b < w.len()
                invariant
                    b <= w.len(),
                    placed@.len() == n,
                    wv == ints(w@),
                    forall|i: int| 0 <= i < wv.len() ==> 0 <= #[trigger] wv[i] < n,
                    forall|i: int|
                        0 <= i < n ==> #[trigger] placed@[i] == (before[i] || wv.take(b as int).contains(
                            i,
                        )),
                decreases w.len() - b,
            {
                let ix = w[b];
                assert(wv[b as int] == ix as int);
                placed.set(ix, true);
                assert forall|i: int| 0 <= i < n implies #[trigger] placed@[i] == (before[i]
                    || wv.take(b + 1).contains(i)) by {
                    assert(wv.take(b + 1) =~= wv.take(b as int).push(ix as int));
                    if i == ix {
                        assert(wv.take(b + 1)[b as int] == i);
                    } else {
                        if wv.take(b as int).contains(i) {
                            let q = choose|q: int| 0 <= q < b && wv.take(b as int)[q] == i;
                            assert(wv.take(b + 1)[q] == i);
                        }
                        if wv.take(b + 1).contains(i) {
                            let tk = wv.take(b + 1);
                            let q = choose|q: int| 0 <= q < tk.len() && tk[q] == i;
                            assert(q < b);
                            assert(wv.take(b as int)[q] == i);
                        }
                    }
                }
                b += 1;
            }
            assert(wv.take(w.len() as int) =~= wv);
            assert(placed@ =~= mark(before, wv));
            let ghost prev_out = out@;
            let ghost old_done = done;
            let wc = w.clone();
            out.push(wc);
            proof {
                assert(rounds(d, before).0 =~= seq![wv] + rounds(d, placed@).0);
                done = done.push(wv);
                assert(done + rounds(d, placed@).0 =~= (old_done + seq![wv]) + rounds(
                    d,
                    placed@,
                ).0);
                assert(out@.map_values(|w: Vec<usize>| ints(w@)) =~= prev_out.map_values(
                    |w: Vec<usize>| ints(w@),
                ).push(wv));
            }
        }
        let ghost fin = rounds(d, p0).1;
        assert(p0 == none_placed(d.nodes.len()));
        assert(dep_index_ok(d, dep_idx@));
        assert(done =~= rounds(d, p0).0);
        // all nodes placed?
        let mut c: usize = 0;
        while c < n
            invariant
                c <= n,
                placed@.len() == n,
                placed@ == fin,
                d == self@,
                dag_wf(d),
                fin == rounds(d, p0).1,
                p0 == none_placed(d.nodes.len()),
                dep_index_ok(d, dep_idx@),
                n == d.nodes.len(),
                forall|x: int| 0 <= x < c ==> placed@[x],
            decreases n - c,
        {
            if !placed[c] {
                assert(!fin[c as int]);
                assert(!all_placed(fin));
                let c = self.find_cycle(&dep_idx, &placed);
                proof {
                    lemma_unplaced_indices(placed@, 0);
                    if !is_simple_cycle(d, c@) {
                        assert forall|i: int| 0 <= i < c@.len() implies #[trigger] c@[i] < n by {
                            assert(c@[i] == unplaced_indices(placed@, 0)[i]);
                        }
                        assert forall|c2: Seq<usize>| !#[trigger] is_cycle(d, c2) by {
                            if is_cycle(d, c2) {
                                lemma_cycle_reached(d, c2);
                            }
                        }
                        assert(acyclic(d));
                    }
                }
                let text = self.names_joined(&c);
                return Err(Error::CycleDetected { cycle: text });
            }
            c += 1;
        }
        Ok(out)
    }

    /// Group recipes into waves for parallel execution: all recipes in a wave
    /// can run concurrently, and a wave starts only after all earlier waves.
    /// Each wave holds the recipes whose deps all ran in earlier waves, in
    /// name order.  Fails with `CycleDetected` when some recipe can never run.
    pub fn waves(&self) -> (r: Result<Vec<Wave>, Error>)
        ensures
            match r {
                Ok(ws) => waves_spec(self@) == Some(ws@.map_values(|w: Vec<String>| sv(w@))),
                Err(e) => {
                    &&& waves_spec(self@) is None
                    &&& e matches Error::CycleDetected { cycle }
                    &&& cycle_report(self@, cycle@)
                },
            },
    {
        let lists = match self.wave_lists() {
            Ok(l) => l,
            Err(e) => {
                return Err(e);
            },
        };
        let ghost wi = wave_indices(self@);
        proof {
            lemma_rounds(self@, none_placed(self@.nodes.len()));
        }
        let mut out: Vec<Wave> = Vec::new();
        let mut k: usize = 0;
        while k < lists.len()
            invariant
                k <= lists@.len(),
                self.nodes@.len() == self@.nodes.len(),
                lists@.map_values(|w: Vec<usize>| ints(w@)) == wi,
                wi == wave_indices(self@),
                waves_spec(self@) is Some,
                forall|k2: int, i: int| #[trigger] in_wave(wi, k2, i) ==> 0 <= i < self@.nodes.len(),
                out@.map_values(|w: Vec<String>| sv(w@)) == wi.map_values(
                    |w: Seq<int>| wave_names(self@, w),
                ).take(k as int),
            decreases lists@.len() - k,
        {
            let row = &lists[k];
            assert(ints(row@) == wi[k as int]);
            assert forall|i: int| 0 <= i < row@.len() implies #[trigger] row@[i] < self@.nodes.len() by {
                assert(wi[k as int][i] == row@[i] as int);
                assert(in_wave(wi, k as int, row@[i] as int));
            }
            let c = self.index_names(row);
            let ghost prev = out@;
            out.push(c);
            assert(out@.map_values(|w: Vec<String>| sv(w@)) =~= wi.map_values(
                |w: Seq<int>| wave_names(self@, w),
            ).take(k + 1)) by {
                assert(out@.map_values(|w: Vec<String>| sv(w@)) =~= prev.map_values(
                    |w: Vec<String>| sv(w@),
                ).push(sv(c@)));
            }
            k += 1;
        }
        proof {
            assert(wi.map_values(|w: Seq<int>| wave_names(self@, w)).take(lists@.len() as int)
                =~= wi.map_values(|w: Seq<int>| wave_names(self@, w)));
        }
        Ok(out)
    }

    /// The waves one after the other, as node indices.
    fn topo_indices(&self) -> (r: Result<Vec<usize>, Error>)
        ensures
            match r {
                Ok(o) => {
                    &&& waves_spec(self@) is Some
                    &&& ints(o@) == concat(wave_indices(self@))
                },
                Err(e) => {
                    &&& waves_spec(self@) is None
                    &&& e matches Error::CycleDetected { cycle }
                    &&& cycle_report(self@, cycle@)
                },
            },
    {
        let lists = match self.wave_lists() {
            Ok(l) => l,
            Err(e) => {
                return Err(e);
            },
        };
        let ghost wi = wave_indices(self@);
        let mut out: Vec<usize> = Vec::new();
        let mut k: usize = 0;
        while k < lists.len()
            invariant
                k <= lists@.len(),
                lists@.map_values(|w: Vec<usize>| ints(w@)) == wi,
                ints(out@) == concat(wi.take(k as int)),
            decreases lists@.len() - k,
        {
            let row = &lists[k];
            assert(ints(row@) == wi[k as int]);
            let ghost before = out@;
            let mut a: usize = 0;
            while a < row.len()
                invariant
                    a <= row@.len(),
                    ints(out@) == ints(before) + ints(row@).take(a as int),
                decreases row@.len() - a,
            {
                let ghost prev = out@;
                out.push(row[a]);
                assert(ints(out@) =~= ints(prev).push(row@[a as int] as int));
                assert(ints(row@).take(a + 1) =~= ints(row@).take(a as int).push(row@[a as int] as int));
                assert(ints(out@) =~= ints(before) + ints(row@).take(a + 1));
                a += 1;
            }
            assert(ints(row@).take(row@.len() as int) =~= ints(row@));
            assert(wi.take(k + 1).drop_last() =~= wi.take(k as int));
            k += 1;
        }
        assert(wi.take(lists@.len() as int) =~= wi);
        Ok(out)
    }

    /// Return recipes in topological order (dependencies before dependents):
    /// the waves one after the other.  Fails with `CycleDetected` when some
    /// recipe can never run.
    pub fn topo_sort(&self) -> (r: Result<Vec<String>, Error>)
        ensures
            match r {
                Ok(order) => {
                    &&& waves_spec(self@) is Some
                    &&& sv(order@) == concat(waves_spec(self@).unwrap())
                },
                Err(e) => {
                    &&& waves_spec(self@) is None
                    &&& e matches Error::CycleDetected { cycle }
                    &&& cycle_report(self@, cycle@)
                },
            },
    {
        proof {
            use_type_invariant(self);
        }
        let o = match self.topo_indices() {
            Ok(o) => o,
            Err(e) => {
                return Err(e);
            },
        };
        proof {
            law_topo_sort(self@);
            lemma_concat_names(self@, wave_indices(self@));
            assert forall|i: int| 0 <= i < o@.len() implies #[trigger] o@[i] < self@.nodes.len() by {
                assert(concat(wave_indices(self@))[i] == o@[i] as int);
            }
        }
        let names = self.index_names(&o);
        assert(wave_names(self@, ints(o@)) =~= concat(wave_indices(self@)).map_values(
            |i: int| self@.nodes[i],
        ));
        Ok(names)
    }

    /// Return all recipes reachable from `start` along deps (`start`
    /// included), in topological order.  Fails with `CycleDetected` when some
    /// recipe of the graph can never run.
    pub fn reachable_from(&self, start: &str) -> (r: Result<Vec<String>, Error>)
        ensures
            match r {
                Ok(names) => {
                    &&& waves_spec(self@) is Some
                    &&& sv(names@) == reachable_names(self@, start@, concat(wave_indices(self@)))
                },
                Err(e) => {
                    &&& waves_spec(self@) is None
                    &&& e matches Error::CycleDetected { cycle }
                    &&& cycle_report(self@, cycle@)
                },
            },
    {
        proof {
            use_type_invariant(self);
        }
        let seen = self.reach_set(start);
        let o = match self.topo_indices() {
            Ok(o) => o,
            Err(e) => {
                return Err(e);
            },
        };
        let ghost full = concat(wave_indices(self@));
        proof {
            law_topo_sort(self@);
        }
        let mut out: Vec<String> = Vec::new();
        let mut p: usize = 0;
        while p < o.len()
            invariant
                p <= o@.len(),
                ints(o@) == full,
                is_topo_order(self@, full),
                seen@.len() == self@.nodes.len(),
                self.nodes@.len() == self@.nodes.len(),
                forall|m: int| 0 <= m < self@.nodes.len() ==> (#[trigger] seen@[m] <==> reaches(
                    self@,
                    start@,
                    m,
                )),
                sv(out@) == reachable_names(self@, start@, full.take(p as int)),
            decreases o@.len() - p,
        {
            let m = o[p];
            assert(full[p as int] == m as int);
            assert(full.take(p + 1).drop_last() =~= full.take(p as int));
            if seen[m] {
                let ghost prev = out@;
                let nm = self.nodes[m].clone();
                out.push(nm);
                proof {
                    crate::text::lemma_sv_push(prev, nm);
                }
                assert(self@.nodes[m as int] == self.nodes@[m as int]@);
            }
            p += 1;
        }
        assert(full.take(o@.len() as int) =~= full);
        Ok(out)
    }

    /// The nodes reachable from the node named `start` along deps.
    fn reach_set(&self, start: &str) -> (seen: Vec<bool>)
        requires
            dag_wf(self@),
        ensures
            seen@.len() == self@.nodes.len(),
            forall|m: int| 0 <= m < self@.nodes.len() ==> (#[trigger] seen@[m] <==> reaches(
                self@,
                start@,
                m,
            )),
    {
        let ghost d = self@;
        let n = self.nodes.len();
        let dep_idx = self.dep_indices();
        let mut seen = all_false(n);
        let mut stack: Vec<usize> = Vec::new();
        let found = self.index_of(start);
        match found {
            Some(s0) => {
                seen.set(s0, true);
                stack.push(s0);
                proof {
                    let c = seq![s0];
                    assert(is_path_from(d, start@, c, s0 as int));
                }
            },
            None => {},
        }
        let ghost start_ix = if exists|m: int| 0 <= m < n && d.nodes[m] == start@ {
            choose|m: int| 0 <= m < n && d.nodes[m] == start@
        } else {
            -1
        };
        proof {
            match found {
                Some(s0) => {
                    lemma_names_distinct(d, start_ix, s0 as int);
                },
                None => {},
            }
        }
        loop
            invariant
                d == self@,
                dag_wf(d),
                n == d.nodes.len(),
                dep_index_ok(d, dep_idx@),
                seen@.len() == n,
                forall|m: int| 0 <= m < n && #[trigger] seen@[m] ==> reaches(d, start@, m),
                forall|i: int| 0 <= i < stack@.len() ==> #[trigger] stack@[i] < n && seen@[stack@[i] as int],
                stack@.no_duplicates(),
                start_ix >= 0 ==> 0 <= start_ix < n && d.nodes[start_ix] == start@ && seen@[start_ix],
                start_ix < 0 ==> forall|m: int| 0 <= m < n ==> d.nodes[m] != start@,
                forall|m: int, j: int|
                    0 <= m < n && seen@[m] && !stack@.contains(m as usize) && 0 <= j < dep_idx@[m]@.len()
                        ==> match #[trigger] dep_idx@[m]@[j] {
                        Some(m2) => seen@[m2 as int],
                        None => true,
                    },
            ensures
                stack@.len() == 0,
            decreases 2 * unplaced(seen@) + stack@.len(),
        {
            if stack.len() == 0 {
                break;
            }
            let ghost old_measure = 2 * unplaced(seen@) + stack@.len();
            let ghost old_stack = stack@;
            let x = stack.pop().unwrap();
            proof {
                assert(stack@ == old_stack.drop_last());
                assert(!stack@.contains(x)) by {
                    if stack@.contains(x) {
                        let q = choose|q: int| 0 <= q < stack@.len() && stack@[q] == x;
                        assert(old_stack[q] == old_stack[old_stack.len() - 1]);
                    }
                }
                assert forall|m: int| 0 <= m < n && m != x && !stack@.contains(m as usize) implies !#[trigger] old_stack.contains(
                    m as usize,
                ) by {
                    if old_stack.contains(m as usize) {
                        let q = choose|q: int| 0 <= q < old_stack.len() && old_stack[q] == m as usize;
                        if q < stack@.len() {
                            assert(stack@[q] == m as usize);
                        }
                    }
                }
            }
            let row = &dep_idx[x];
            let mut j: usize = 0;
            while j < row.len()
                invariant
                    d == self@,
                    dag_wf(d),
                    n == d.nodes.len(),
                    dep_index_ok(d, dep_idx@),
                    x < n,
                    row == dep_idx@[x as int],
                    j <= row@.len(),
                    seen@.len() == n,
                    seen@[x as int],
                    !stack@.contains(x),
                    forall|m: int| 0 <= m < n && #[trigger] seen@[m] ==> reaches(d, start@, m),
                    forall|i: int| 0 <= i < stack@.len() ==> #[trigger] stack@[i] < n && seen@[stack@[i] as int],
                    stack@.no_duplicates(),
                    start_ix >= 0 ==> 0 <= start_ix < n && d.nodes[start_ix] == start@ && seen@[start_ix],
                    forall|m: int, j2: int|
                        0 <= m < n && m != x && seen@[m] && !stack@.contains(m as usize) && 0 <= j2
                            < dep_idx@[m]@.len() ==> match #[trigger] dep_idx@[m]@[j2] {
                            Some(m2) => seen@[m2 as int],
                            None => true,
                        },
                    forall|j2: int| 0 <= j2 < j ==> match #[trigger] row@[j2] {
                        Some(m2) => seen@[m2 as int],
                        None => true,
                    },
                    2 * unplaced(seen@) + stack@.len() < old_measure,
                decreases row@.len() - j,
            {
                match row[j] {
                    Some(m2) => {
                        if !seen[m2] {
                            proof {
                                assert(row@[j as int] == Some(m2));
                                assert(depends_on(d, x as int, m2 as int));
                                assert(reaches(d, start@, x as int));
                                let c = choose|c: Seq<usize>| #[trigger] is_path_from(d, start@, c, x as int);
                                assert(is_path_from(d, start@, c.push(m2), m2 as int)) by {
                                    let c2 = c.push(m2);
                                    assert forall|i: int| 0 <= i < c2.len() - 1 implies #[trigger] depends_on(
                                        d,
                                        c2[i] as int,
                                        c2[i + 1] as int,
                                    ) by {
                                        if i < c.len() - 1 {
                                            assert(c2[i] == c[i] && c2[i + 1] == c[i + 1]);
                                            assert(depends_on(d, c[i] as int, c[i + 1] as int));
                                        }
                                    }
                                }
                                lemma_unplaced_set(seen@, m2 as int);
                            }
                            let ghost seen_old = seen@;
                            let ghost stack_old = stack@;
                            seen.set(m2, true);
                            stack.push(m2);
                            proof {
                                assert(!stack_old.contains(m2)) by {
                                    if stack_old.contains(m2) {
                                        let q = choose|q: int| 0 <= q < stack_old.len() && stack_old[q] == m2;
                                        assert(seen_old[stack_old[q] as int]);
                                    }
                                }
                                assert forall|m: int, j2: int|
                                    0 <= m < n && m != x && seen@[m] && !stack@.contains(m as usize) && 0 <= j2
                                        < dep_idx@[m]@.len() implies match #[trigger] dep_idx@[m]@[j2] {
                                    Some(m3) => seen@[m3 as int],
                                    None => true,
                                } by {
                                    if m == m2 {
                                        assert(stack@[stack@.len() - 1] == m2);
                                    }
                                    assert(seen_old[m]);
                                    if stack_old.contains(m as usize) {
                                        let q = choose|q: int| 0 <= q < stack_old.len() && stack_old[q] == m as usize;
                                        assert(stack@[q] == m as usize);
                                    }
                                }
                                assert(!stack@.contains(x)) by {
                                    if stack@.contains(x) {
                                        let q = choose|q: int| 0 <= q < stack@.len() && stack@[q] == x;
                                        if q < stack_old.len() {
                                            assert(stack_old[q] == x);
                                        }
                                    }
                                }
                            }
                        }
                    },
                    None => {},
                }
                j += 1;
            }
        }
        proof {
            assert forall|m: int| 0 <= m < n && reaches(d, start@, m) implies #[trigger] seen@[m] by {
                let c = choose|c: Seq<usize>| #[trigger] is_path_from(d, start@, c, m);
                lemma_path_seen(d, dep_idx@, seen@, start@, start_ix, c);
            }
        }
        seen
    }

    /// `dep_idx[k][j]` is the index of the node named by dep `j` of node `k`.
    fn dep_indices(&self) -> (dep_idx: Vec<Vec<Option<usize>>>)
        ensures
            dep_index_ok(self@, dep_idx@),
    {
        let ghost d = self@;
        proof {
            use_type_invariant(self);
        }
        let n = self.nodes.len();
        let mut dep_idx: Vec<Vec<Option<usize>>> = Vec::new();
        let mut k: usize = 0;
        while k < n
            invariant
                k <= n,
                n == d.nodes.len(),
                d == self@,
                self.deps@.len() == n,
                dep_idx@.len() == k,
                forall|x: int| 0 <= x < k ==> (#[trigger] dep_idx@[x])@.len() == d.deps[x].len(),
                forall|x: int, j: int|
                    0 <= x < k && 0 <= j < dep_idx@[x]@.len() ==> match #[trigger] dep_idx@[x]@[j] {
                        Some(m) => m < n && d.nodes[m as int] == d.deps[x][j],
                        None => forall|m: int| 0 <= m < n ==> d.nodes[m] != d.deps[x][j],
                    },
            decreases n - k,
        {
            let dl = &self.deps[k];
            assert(d.deps[k as int] == sv(dl@));
            let mut row: Vec<Option<usize>> = Vec::new();
            let mut j: usize = 0;
            while j < dl.len()
                invariant
                    j <= dl.len(),
                    d == self@,
                    n == d.nodes.len(),
                    k < n,
                    d.deps[k as int] == sv(dl@),
                    row@.len() == j,
                    forall|y: int| 0 <= y < j ==> match #[trigger] row@[y] {
                        Some(m) => m < n && d.nodes[m as int] == d.deps[k as int][y],
                        None => forall|m: int| 0 <= m < n ==> d.nodes[m] != d.deps[k as int][y],
                    },
                decreases dl.len() - j,
            {
                assert(sv(dl@)[j as int] == dl@[j as int]@);
                let ix = self.index_of(dl[j].as_str());
                row.push(ix);
                j += 1;
            }
            dep_idx.push(row);
            k += 1;
        }
        dep_idx
    }

    /// The names of the nodes `row`.
    fn index_names(&self, row: &Vec<usize>) -> (names: Vec<String>)
        requires
            forall|i: int| 0 <= i < row@.len() ==> #[trigger] row@[i] < self@.nodes.len(),
        ensures
            sv(names@) == wave_names(self@, ints(row@)),
    {
        let mut names: Vec<String> = Vec::new();
        let mut a: usize = 0;
        while a < row.len()
            invariant
                a <= row@.len(),
                self.nodes@.len() == self@.nodes.len(),
                forall|i: int| 0 <= i < row@.len() ==> #[trigger] row@[i] < self@.nodes.len(),
                sv(names@) == wave_names(self@, ints(row@)).take(a as int),
            decreases row@.len() - a,
        {
            let ghost prev = names@;
            let s = self.nodes[row[a]].clone();
            names.push(s);
            proof {
                crate::text::lemma_sv_push(prev, s);
            }
            assert(self@.nodes[row@[a as int] as int] == self.nodes@[row@[a as int] as int]@);
            assert(sv(names@) =~= wave_names(self@, ints(row@)).take(a + 1));
            a += 1;
        }
        assert(wave_names(self@, ints(row@)).take(row@.len() as int) =~= wave_names(
            self@,
            ints(row@),
        ));
        names
    }

    /// Depth-first search for a cycle among the unplaced nodes, from `node`
    /// along dep edges, with `path` the chain of nodes walked so far.
    fn dfs_cycle(
        &self,
        node: usize,
        dep_idx: &Vec<Vec<Option<usize>>>,
        placed: &Vec<bool>,
        path: &mut Vec<usize>,
        on_path: &mut Vec<bool>,
    ) -> (r: Option<Vec<usize>>)
        requires
            dep_index_ok(self@, dep_idx@),
            node < self@.nodes.len(),
            placed@.len() == self@.nodes.len(),
            old(on_path)@.len() == self@.nodes.len(),
            is_chain(self@, old(path)@),
            forall|x: int|
                0 <= x < self@.nodes.len() ==> (#[trigger] old(on_path)@[x] <==> old(
                    path,
                )@.contains(x as usize)),
            forall|i: int|
                0 <= i < old(path)@.len() ==> #[trigger] old(path)@[i] < self@.nodes.len()
                    && !placed@[old(path)@[i] as int],
            old(path)@.len() > 0 ==> depends_on(self@, old(path)@.last() as int, node as int),
            forall|i: int, j: int|
                0 <= i < j < old(path)@.len() ==> #[trigger] old(path)@[i] != #[trigger] old(path)@[j],
        ensures
            final(on_path)@.len() == self@.nodes.len(),
            r is None ==> final(path)@ == old(path)@ && final(on_path)@ == old(on_path)@,
            r matches Some(c) ==> is_simple_cycle(self@, c@),
            r is Some <==> reaches_unplaced_cycle(self@, placed@, node as int),
        decreases unplaced(old(on_path)@),
    {
        proof {
            use_type_invariant(self);
        }
        if on_path[node] {
            // the cycle is the path from the first visit of `node`, closed by `node`
            let mut p: usize = 0;
            while p < path.len() && path[p] != node
                invariant
                    p <= path@.len(),
                    forall|q: int| 0 <= q < p ==> path@[q] != node,
                decreases path@.len() - p,
            {
                p += 1;
            }
            assert(path@.contains(node));
            if p == path.len() {
                proof {
                    let q = choose|q: int| 0 <= q < path@.len() && path@[q] == node;
                    assert(false);
                }
            }
            let mut c: Vec<usize> = Vec::new();
            let mut q: usize = p;
            while q < path.len()
                invariant
                    p <= q <= path@.len(),
                    c@ == path@.subrange(p as int, q as int),
                decreases path@.len() - q,
            {
                c.push(path[q]);
                q += 1;
            }
            c.push(node);
            proof {
                let pv = path@;
                assert(c@ == pv.subrange(p as int, pv.len() as int).push(node));
                assert forall|i: int| 0 <= i < c@.len() - 1 implies #[trigger] depends_on(
                    self@,
                    c@[i] as int,
                    c@[i + 1] as int,
                ) by {
                    if i + 1 < c@.len() - 1 {
                        assert(c@[i] == pv[p + i]);
                        assert(c@[i + 1] == pv[p + i + 1]);
                        assert(depends_on(self@, pv[p + i] as int, pv[p + i + 1] as int));
                    } else {
                        assert(c@[i] == pv.last());
                    }
                }
                assert forall|i: int| 0 <= i < c@.len() implies #[trigger] c@[i] < self@.nodes.len()
                    && !placed@[c@[i] as int] by {
                    if i < c@.len() - 1 {
                        assert(c@[i] == pv[p + i]);
                        assert(pv.contains(pv[p + i]));
                    } else {
                        assert(pv[p as int] == node);
                    }
                }
                assert(c@[0] == c@[c@.len() - 1]);
                assert(lasso_from(self@, placed@, c@, node as int));
                assert forall|i: int, j: int| 0 <= i < j < c@.len() - 1 implies #[trigger] c@[i]
                    != #[trigger] c@[j] by {
                    assert(c@[i] == pv[p + i] && c@[j] == pv[p + j]);
                }
            }
            return Some(c);
        }
        if placed[node] {
            proof {
                if reaches_unplaced_cycle(self@, placed@, node as int) {
                    let w = choose|w: Seq<usize>| #[trigger] lasso_from(self@, placed@, w, node as int);
                    lemma_walk_at(self@, placed@, w, 0);
                }
            }
            return None;
        }
        let ghost path0 = path@;
        let ghost on0 = on_path@;
        proof {
            lemma_unplaced_set(on0, node as int);
        }
        let nn: usize = on_path.len();
        on_path.set(node, true);
        path.push(node);
        let ghost path1 = path@;
        let ghost on1 = on_path@;
        proof {
            assert forall|i: int| 0 <= i < path1.len() - 1 implies #[trigger] depends_on(
                self@,
                path1[i] as int,
                path1[i + 1] as int,
            ) by {
                if i + 1 < path1.len() - 1 {
                    assert(path1[i] == path0[i] && path1[i + 1] == path0[i + 1]);
                    assert(depends_on(self@, path0[i] as int, path0[i + 1] as int));
                } else {
                    assert(path1[i] == path0.last());
                }
            }
            assert forall|x: int| 0 <= x < self@.nodes.len() implies (#[trigger] on1[x]
                <==> path1.contains(x as usize)) by {
                if x == node {
                    assert(path1[path1.len() - 1] == node);
                } else {
                    if path1.contains(x as usize) {
                        assert(path1 == path0.push(node));
                        let q = choose|q: int| 0 <= q < path1.len() && path1[q] == x as usize;
                        assert(q < path0.len());
                        assert(path0[q] == x as usize);
                    }
                    if path0.contains(x as usize) {
                        let q = choose|q: int| 0 <= q < path0.len() && path0[q] == x as usize;
                        assert(path1[q] == x as usize);
                    }
                }
            }
        }
        let row = &dep_idx[node];
        let mut j: usize = 0;
        while j < row.len()
            invariant
                j <= row@.len(),
                row == dep_idx@[node as int],
                dep_index_ok(self@, dep_idx@),
                node < self@.nodes.len(),
                placed@.len() == self@.nodes.len(),
                path@ == path1,
                on_path@ == on1,
                on1.len() == self@.nodes.len(),
                unplaced(on1) < unplaced(on0),
                on0 == old(on_path)@,
                is_chain(self@, path1),
                path1.len() > 0 && path1.last() == node,
                forall|x: int|
                    0 <= x < self@.nodes.len() ==> (#[trigger] on1[x] <==> path1.contains(
                        x as usize,
                    )),
                forall|i: int|
                    0 <= i < path1.len() ==> #[trigger] path1[i] < self@.nodes.len() && !placed@[path1[i] as int],
                !placed@[node as int],
                forall|i: int, j: int|
                    0 <= i < j < path1.len() ==> #[trigger] path1[i] != #[trigger] path1[j],
                forall|jj: int|
                    0 <= jj < j ==> match #[trigger] dep_idx@[node as int]@[jj] {
                        Some(m) => !reaches_unplaced_cycle(self@, placed@, m as int),
                        None => true,
                    },
            decreases row@.len() - j,
        {
            match row[j] {
                Some(m) => {
                    assert(dep_idx@[node as int]@[j as int] == Some(m));
                    assert(depends_on(self@, node as int, m as int));
                    let found = self.dfs_cycle(m, dep_idx, placed, path, on_path);
                    if found.is_some() {
                        proof {
                            lemma_lasso_extend(self@, placed@, node, m as int);
                        }
                        return found;
                    }
                },
                None => {},
            }
            j += 1;
        }
        path.pop();
        on_path.set(node, false);
        assert(path@ =~= path0);
        assert(on_path@ =~= on0);
        proof {
            if reaches_unplaced_cycle(self@, placed@, node as int) {
                let d = self@;
                let w = choose|w: Seq<usize>| #[trigger] lasso_from(d, placed@, w, node as int);
                lemma_lasso_step(d, placed@, node as int, w);
                let jj = choose|jj: int|
                    0 <= jj < d.deps[node as int].len() && d.deps[node as int][jj] == d.nodes[w[1] as int];
                match dep_idx@[node as int]@[jj] {
                    Some(m) => {
                        lemma_names_distinct(d, m as int, w[1] as int);
                    },
                    None => {},
                }
            }
        }
        None
    }

    /// A cycle among the nodes left unplaced, found by depth-first search
    /// from each of them in turn; when none is found (a dep names no
    /// recipe), all the unplaced nodes.
    fn find_cycle(&self, dep_idx: &Vec<Vec<Option<usize>>>, placed: &Vec<bool>) -> (c: Vec<usize>)
        requires
            dep_index_ok(self@, dep_idx@),
            placed@.len() == self@.nodes.len(),
        ensures
            is_simple_cycle(self@, c@) || (c@ == unplaced_indices(placed@, 0) && forall|k: int|
                0 <= k < self@.nodes.len() && !placed@[k] ==> !#[trigger] reaches_unplaced_cycle(
                    self@,
                    placed@,
                    k,
                )),
    {
        let n = self.nodes.len();
        let mut start: usize = 0;
        while start < n
            invariant
                start <= n,
                n == self@.nodes.len(),
                dep_index_ok(self@, dep_idx@),
                placed@.len() == n,
                forall|k: int|
                    0 <= k < start && !placed@[k] ==> !#[trigger] reaches_unplaced_cycle(
                        self@,
                        placed@,
                        k,
                    ),
            decreases n - start,
        {
            if !placed[start] {
                let mut path: Vec<usize> = Vec::new();
                let mut on_path = all_false(n);
                let found = self.dfs_cycle(start, dep_idx, placed, &mut path, &mut on_path);
                if let Some(c) = found {
                    return c;
                }
            }
            start += 1;
        }
        let mut rest: Vec<usize> = Vec::new();
        let mut i: usize = 0;
        assert(unplaced_indices(placed@, 0) == Seq::<usize>::empty() + unplaced_indices(placed@, 0));
        while i < n
            invariant
                i <= n,
                placed@.len() == n,
                rest@ + unplaced_indices(placed@, i as int) == unplaced_indices(placed@, 0),
            decreases n - i,
        {
            if !placed[i] {
                let ghost prev = rest@;
                rest.push(i);
                assert(rest@ + unplaced_indices(placed@, i + 1) =~= prev + unplaced_indices(placed@, i as int));
            } else {
                assert(unplaced_indices(placed@, i as int) == unplaced_indices(placed@, i + 1));
            }
            i += 1;
        }
        assert(rest@ =~= unplaced_indices(placed@, 0));
        rest
    }

    /// The names of nodes `c`, joined by ` -> `.
    fn names_joined(&self, c: &Vec<usize>) -> (s: String)
        requires
            forall|i: int| 0 <= i < c@.len() ==> #[trigger] c@[i] < self@.nodes.len(),
        ensures
            s@ == join(node_names(self@, c@), " -> "@),
    {
        let mut v: Vec<String> = Vec::new();
        let mut i: usize = 0;
        while i < c.len()
            invariant
                i <= c@.len(),
                self.nodes@.len() == self@.nodes.len(),
                forall|i: int| 0 <= i < c@.len() ==> #[trigger] c@[i] < self@.nodes.len(),
                sv(v@) == node_names(self@, c@).take(i as int),
            decreases c@.len() - i,
        {
            let ghost prev = v@;
            let s = self.nodes[c[i]].clone();
            v.push(s);
            proof {
                crate::text::lemma_sv_push(prev, s);
            }
            assert(self@.nodes[c@[i as int] as int] == self.nodes@[c@[i as int] as int]@);
            assert(sv(v@) =~= node_names(self@, c@).take(i + 1));
            i += 1;
        }
        assert(node_names(self@, c@).take(c@.len() as int) =~= node_names(self@, c@));
        join_strings(&v, " -> ")
    }
}

/// A vector of `n` times `false`.
fn all_false(n: usize) -> (v: Vec<bool>)
    ensures
        v@ == none_placed(n as nat),
{
    let mut v: Vec<bool> = Vec::new();
    let mut z: usize = 0;
    while z < n
        invariant
            z <= n,
            v@.len() == z,
            forall|x: int| 0 <= x < z ==> !v@[x],
        decreases n - z,
    {
        v.push(false);
        z += 1;
    }
    assert(v@ =~= none_placed(n as nat));
    v
}

} // verus!
