//! The protocol's laws, proved over the mathematical models that the
//! executable operations are specified against.

use vstd::prelude::*;

use crate::digest::digest_of;
use crate::graph::{
    add_dependency_m, add_node_m, dependents_m, find_index, incoming_sources, no_edges, no_nodes,
};
use crate::pipeline::transformer::transformed_of;
use crate::worker::{lossy_of, process_batch_m, process_file_m, rebuild_m, WorkerModel};

verus! {

/// Cache correctness: processing the same path with unchanged bytes a
/// second time returns the first call's output and leaves the whole state
/// alone — in particular the transformer does not run again.
pub proof fn lemma_cache_correctness(m: WorkerModel, path: Seq<char>, bytes: Seq<u8>)
    ensures
        process_file_m(process_file_m(m, path, Some(bytes)).0, path, Some(bytes)).1
            == process_file_m(m, path, Some(bytes)).1,
        process_file_m(process_file_m(m, path, Some(bytes)).0, path, Some(bytes)).0
            == process_file_m(m, path, Some(bytes)).0,
{
    let s1 = process_file_m(m, path, Some(bytes)).0;
    assert(s1.cache.dom().contains(path));
    assert(s1.cache[path].0 == digest_of(bytes));
}

/// Cache invalidation on change: when the digest of a file's bytes has
/// changed since it was processed, processing it again runs the
/// transformer once more and the output reflects the new content.
pub proof fn lemma_change_recomputes(m: WorkerModel, path: Seq<char>, b1: Seq<u8>, b2: Seq<u8>)
    ensures
        digest_of(b2) != digest_of(b1) ==> process_file_m(
            process_file_m(m, path, Some(b1)).0,
            path,
            Some(b2),
        ).1 == transformed_of(lossy_of(b2), path),
        digest_of(b2) != digest_of(b1) ==> process_file_m(
            process_file_m(m, path, Some(b1)).0,
            path,
            Some(b2),
        ).0.transforms == process_file_m(m, path, Some(b1)).0.transforms + 1,
{
    let s1 = process_file_m(m, path, Some(b1)).0;
    assert(s1.cache.dom().contains(path));
    assert(s1.cache[path].0 == digest_of(b1));
}

/// Idempotent edges, general form: declaring the same dependency twice
/// changes nothing the second time.
pub proof fn lemma_add_dependency_idempotent(
    nodes: Seq<Seq<char>>,
    edges: Seq<(int, int)>,
    from: Seq<char>,
    to: Seq<char>,
)
    ensures
        add_dependency_m(
            add_dependency_m(nodes, edges, from, to).0,
            add_dependency_m(nodes, edges, from, to).1,
            from,
            to,
        ) == add_dependency_m(nodes, edges, from, to),
{
    let n1 = add_node_m(nodes, from);
    let n2 = add_node_m(n1, to);
    if !nodes.contains(from) {
        assert(n1[n1.len() - 1] == from);
    }
    assert(n1.contains(from));
    if !n1.contains(to) {
        assert(n2[n2.len() - 1] == to);
    }
    assert(n2.contains(to));
    if !n1.contains(to) {
        let k = choose|k: int| 0 <= k < n1.len() && n1[k] == from;
        assert(n2[k] == from);
    }
    assert(n2.contains(from));
    let i = find_index(n2, from);
    let j = find_index(n2, to);
    let g1 = add_dependency_m(nodes, edges, from, to);
    assert(g1.0 == n2);
    if !edges.contains((i, j)) {
        assert(g1.1.last() == (i, j));
        assert(g1.1.contains((i, j)));
    }
}

/// Idempotent edges, the single-edge picture: after declaring that `a`
/// depends on `b` in a fresh graph, the dependents of `b` are exactly
/// `[a]` — once, not twice.
pub proof fn lemma_single_edge_dependents(a: Seq<char>, b: Seq<char>)
    ensures
        dependents_m(
            add_dependency_m(no_nodes(), no_edges(), a, b).0,
            add_dependency_m(no_nodes(), no_edges(), a, b).1,
            b,
        ) == seq![a],
{
    let n1 = add_node_m(no_nodes(), a);
    assert(!no_nodes().contains(a));
    assert(n1 =~= seq![a]);
    assert(incoming_sources(seq![a], no_edges(), 0) =~= Seq::<Seq<char>>::empty());
    assert(incoming_sources(seq![a, b], no_edges(), 1) =~= Seq::<Seq<char>>::empty());
    let n2 = add_node_m(n1, b);
    if a == b {
        assert(n1[0] == b);
        assert(n1.contains(b));
        assert(n2 =~= seq![a]);
        assert(find_index(n2, a) == 0);
        let g = add_dependency_m(no_nodes(), no_edges(), a, b);
        assert(g.1 =~= seq![(0int, 0int)]);
        assert(g.1.drop_last() =~= no_edges());
        assert(incoming_sources(n2, g.1, 0) =~= seq![a]);
        assert(dependents_m(g.0, g.1, b) =~= seq![a]);
    } else {
        if n1.contains(b) {
            let k = choose|k: int| 0 <= k < n1.len() && n1[k] == b;
            assert(false);
        }
        assert(n2 =~= seq![a, b]);
        assert(seq![a, b].drop_last() =~= seq![a]);
        assert(find_index(seq![a], a) == 0);
        assert(find_index(n2, a) == 0);
        assert(find_index(n2, b) == 1);
        let g = add_dependency_m(no_nodes(), no_edges(), a, b);
        assert(g.1 =~= seq![(0int, 1int)]);
        assert(g.1.drop_last() =~= no_edges());
        assert(incoming_sources(n2, g.1, 1) =~= seq![a]);
        assert(dependents_m(g.0, g.1, b) =~= seq![a]);
    }
}

/// Direct dependents only: with edges a -> b and b -> c between three
/// distinct files, the dependents of `c` are exactly `[b]` — `a` is not
/// reported — and rebuilding `c` reports `[c, b]`, again without `a`.
pub proof fn lemma_one_hop(
    a: Seq<char>,
    b: Seq<char>,
    c: Seq<char>,
    cache: Map<Seq<char>, (Seq<char>, Seq<char>)>,
    transforms: int,
)
    requires
        a != b,
        b != c,
        a != c,
    ensures
        ({
            let g1 = add_dependency_m(no_nodes(), no_edges(), a, b);
            let g2 = add_dependency_m(g1.0, g1.1, b, c);
            dependents_m(g2.0, g2.1, c) == seq![b] && rebuild_m(
                WorkerModel { cache: cache, nodes: g2.0, edges: g2.1, transforms: transforms },
                c,
            ).1 == seq![c, b]
        }),
{
    let g1 = add_dependency_m(no_nodes(), no_edges(), a, b);
    assert(!no_nodes().contains(a));
    assert(add_node_m(no_nodes(), a) =~= seq![a]);
    if seq![a].contains(b) {
        let k = choose|k: int| 0 <= k < 1 && seq![a][k] == b;
        assert(false);
    }
    assert(g1.0 =~= seq![a, b]);
    assert(seq![a, b].drop_last() =~= seq![a]);
    assert(find_index(seq![a], a) == 0);
    assert(find_index(seq![a, b], a) == 0);
    assert(find_index(seq![a, b], b) == 1);
    assert(g1.1 =~= seq![(0int, 1int)]);
    assert(seq![a, b][1] == b);
    assert(seq![a, b].contains(b));
    let n3 = add_node_m(g1.0, b);
    assert(n3 == g1.0);
    if seq![a, b].contains(c) {
        let k = choose|k: int| 0 <= k < 2 && seq![a, b][k] == c;
        assert(false);
    }
    let g2 = add_dependency_m(g1.0, g1.1, b, c);
    assert(add_node_m(n3, c) =~= seq![a, b, c]);
    assert(g2.0 =~= seq![a, b, c]);
    assert(find_index(seq![a, b, c], c) == 2);
    assert(seq![a, b, c].drop_last() =~= seq![a, b]);
    assert(find_index(seq![a, b, c], b) == 1);
    assert(find_index(seq![a, b, c], a) == 0);
    if g1.1.contains((1int, 2int)) {
        let k = choose|k: int| 0 <= k < g1.1.len() && g1.1[k] == (1int, 2int);
        assert(false);
    }
    assert(g2.1 =~= seq![(0int, 1int), (1int, 2int)]);
    assert(incoming_sources(g2.0, no_edges(), 2) =~= Seq::<Seq<char>>::empty());
    assert(seq![(0int, 1int)].drop_last() =~= no_edges());
    assert(incoming_sources(g2.0, seq![(0int, 1int)], 2) =~= Seq::<Seq<char>>::empty());
    assert(g2.1.drop_last() =~= seq![(0int, 1int)]);
    assert(incoming_sources(g2.0, g2.1, 2) =~= seq![b]);
    assert(dependents_m(g2.0, g2.1, c) =~= seq![b]);
    assert(seq![c] + dependents_m(g2.0, g2.1, c) =~= seq![c, b]);
}

/// Invalidation is a cache-only operation: dropping a path's cache entry
/// leaves the graph's answer about its dependents untouched, and the next
/// processing of that path recomputes — the transformer runs once more
/// whatever bytes are read.
pub proof fn lemma_invalidate_cache_only(m: WorkerModel, path: Seq<char>, bytes: Seq<u8>)
    ensures
        ({
            let m1 = WorkerModel {
                cache: m.cache.remove(path),
                nodes: m.nodes,
                edges: m.edges,
                transforms: m.transforms,
            };
            dependents_m(m1.nodes, m1.edges, path) == dependents_m(m.nodes, m.edges, path)
                && process_file_m(m1, path, Some(bytes)).0.transforms == m.transforms + 1
                && process_file_m(m1, path, Some(bytes)).1 == transformed_of(lossy_of(bytes), path)
        }),
{
}


/// The orchestrator's state after the first `i` files of a batch.
pub open spec fn batch_prefix_state(
    m: WorkerModel,
    paths: Seq<Seq<char>>,
    contents: Seq<Option<Seq<u8>>>,
    i: int,
) -> WorkerModel {
    process_batch_m(m, paths.take(i), contents.take(i)).0
}

proof fn lemma_batch_take_step(
    m: WorkerModel,
    paths: Seq<Seq<char>>,
    contents: Seq<Option<Seq<u8>>>,
    i: int,
)
    requires
        1 <= i <= paths.len(),
        paths.len() == contents.len(),
    ensures
        batch_prefix_state(m, paths, contents, i) == batch_prefix_state(
            process_file_m(m, paths[0], contents[0]).0,
            paths.drop_first(),
            contents.drop_first(),
            i - 1,
        ),
{
    let tp = paths.take(i);
    let tc = contents.take(i);
    assert(tp.len() == i);
    assert(tp[0] == paths[0]);
    assert(tc[0] == contents[0]);
    assert(tp.drop_first() =~= paths.drop_first().take(i - 1));
    assert(tc.drop_first() =~= contents.drop_first().take(i - 1));
}

/// Batch order preservation: a batch returns one output per path, and the
/// output at each position is exactly what processing that position's path
/// returns in input order, whatever order the work itself is scheduled in.
pub proof fn lemma_batch_order(m: WorkerModel, paths: Seq<Seq<char>>, contents: Seq<Option<Seq<u8>>>)
    requires
        paths.len() == contents.len(),
    ensures
        process_batch_m(m, paths, contents).1.len() == paths.len(),
        forall|i: int|
            0 <= i < paths.len() ==> process_batch_m(m, paths, contents).1[i] == process_file_m(
                batch_prefix_state(m, paths, contents, i),
                paths[i],
                contents[i],
            ).1,
    decreases paths.len(),
{
    if paths.len() > 0 {
        let first = process_file_m(m, paths[0], contents[0]);
        let pd = paths.drop_first();
        let cd = contents.drop_first();
        lemma_batch_order(first.0, pd, cd);
        assert forall|i: int|
            0 <= i < paths.len() implies process_batch_m(m, paths, contents).1[i]
            == process_file_m(
            batch_prefix_state(m, paths, contents, i),
            paths[i],
            contents[i],
        ).1 by {
            if i == 0 {
                assert(paths.take(0) =~= Seq::<Seq<char>>::empty());
                assert(contents.take(0) =~= Seq::<Option<Seq<u8>>>::empty());
                assert(process_batch_m(m, paths, contents).1[0] == first.1);
            } else {
                assert(process_batch_m(m, paths, contents).1[i] == process_batch_m(
                    first.0,
                    pd,
                    cd,
                ).1[i - 1]);
                assert(pd[i - 1] == paths[i]);
                assert(cd[i - 1] == contents[i]);
                lemma_batch_take_step(m, paths, contents, i);
            }
        }
    }
}

} // verus!
