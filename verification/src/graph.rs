//! The dependency graph: a directed graph over file identifiers whose edge
//! `A -> B` records that `A` depends on (imports) `B`. Nodes are created
//! lazily and never removed; edges are idempotent. The dependents query is
//! one hop only: it answers "if this file changes, who must be notified?"
//! for direct importers, leaving transitive propagation to the caller.

use vstd::prelude::*;

verus! {

#[verifier::external_type_specification]
#[verifier::external_body]
#[verifier::reject_recursive_types(N)]
#[verifier::reject_recursive_types(E)]
#[verifier::reject_recursive_types(Ty)]
#[verifier::reject_recursive_types(Ix)]
pub struct ExGraph<N, E, Ty, Ix>(petgraph::graph::Graph<N, E, Ty, Ix>);

#[verifier::external_type_specification]
#[verifier::external_body]
pub struct ExDirected(petgraph::Directed);

/// The node weights a graph store holds, in order of addition: the weight
/// added k-th sits at position k.
pub uninterp spec fn graph_nodes(g: petgraph::graph::Graph<String, (), petgraph::Directed>) -> Seq<
    Seq<char>,
>;

/// The edges a graph store holds as (source index, target index) pairs, in
/// order of addition.
pub uninterp spec fn graph_edges(g: petgraph::graph::Graph<String, (), petgraph::Directed>) -> Seq<
    (int, int),
>;

/// No node weights at all.
pub open spec fn no_nodes() -> Seq<Seq<char>> {
    Seq::empty()
}

/// No edges at all.
pub open spec fn no_edges() -> Seq<(int, int)> {
    Seq::empty()
}

/// The sources of the edges pointing into node `t`, most recently added
/// edge first.
pub open spec fn incoming_sources(
    nodes: Seq<Seq<char>>,
    edges: Seq<(int, int)>,
    t: int,
) -> Seq<Seq<char>>
    decreases edges.len(),
{
    if edges.len() == 0 {
        Seq::empty()
    } else {
        let rest = incoming_sources(nodes, edges.drop_last(), t);
        if edges.last().1 == t {
            seq![nodes[edges.last().0]] + rest
        } else {
            rest
        }
    }
}

/// Relies on petgraph::graph::Graph::new: a freshly created directed graph
/// holds no nodes and no edges.
#[verifier::external_body]
fn graph_new() -> (g: petgraph::graph::Graph<String, (), petgraph::Directed>)
    ensures
        graph_nodes(g) == no_nodes(),
        graph_edges(g) == no_edges(),
{
    petgraph::graph::Graph::new()
}

/// Relies on petgraph::graph::Graph::add_node: appends a node and returns
/// its index, which is the node count before the call.
#[verifier::external_body]
fn graph_add_node(g: &mut petgraph::graph::Graph<String, (), petgraph::Directed>, w: String) -> (i:
    usize)
    requires
        graph_nodes(*old(g)).len() < 0xffff_ffff,
    ensures
        graph_nodes(*final (g)) == graph_nodes(*old(g)).push(w@),
        graph_edges(*final (g)) == graph_edges(*old(g)),
        i == graph_nodes(*old(g)).len(),
{
    g.add_node(w).index()
}

/// Relies on petgraph::graph::Graph::add_edge: appends an edge between two
/// existing nodes.
#[verifier::external_body]
fn graph_add_edge(g: &mut petgraph::graph::Graph<String, (), petgraph::Directed>, a: usize, b: usize)
    requires
        a < graph_nodes(*old(g)).len(),
        b < graph_nodes(*old(g)).len(),
        graph_edges(*old(g)).len() < 0xffff_ffff,
    ensures
        graph_nodes(*final (g)) == graph_nodes(*old(g)),
        graph_edges(*final (g)) == graph_edges(*old(g)).push((a as int, b as int)),
{
    g.add_edge(petgraph::graph::NodeIndex::new(a), petgraph::graph::NodeIndex::new(b), ());
}

/// Relies on petgraph::graph::Graph::contains_edge: whether some edge runs
/// from `a` to `b`.
#[verifier::external_body]
fn graph_contains_edge(
    g: &petgraph::graph::Graph<String, (), petgraph::Directed>,
    a: usize,
    b: usize,
) -> (r: bool)
    ensures
        r == graph_edges(*g).contains((a as int, b as int)),
{
    g.contains_edge(petgraph::graph::NodeIndex::new(a), petgraph::graph::NodeIndex::new(b))
}

/// Relies on petgraph::graph::Graph::neighbors_directed with the incoming
/// direction: the sources of the edges into `t`, most recently added edge
/// first.
#[verifier::external_body]
fn graph_incoming(g: &petgraph::graph::Graph<String, (), petgraph::Directed>, t: usize) -> (r: Vec<
    String,
>)
    requires
        t < graph_nodes(*g).len(),
    ensures
        r@.map_values(|s: String| s@) == incoming_sources(graph_nodes(*g), graph_edges(*g), t as int),
{
    g.neighbors_directed(petgraph::graph::NodeIndex::new(t), petgraph::Direction::Incoming).map(
        |i| g[i].clone(),
    ).collect()
}


/// The position of `id` among the node weights, or -1 if it is not there.
/// With unique weights this is the one index holding `id`.
pub open spec fn find_index(nodes: Seq<Seq<char>>, id: Seq<char>) -> int
    decreases nodes.len(),
{
    if nodes.len() == 0 {
        -1
    } else if nodes.last() == id {
        nodes.len() - 1
    } else {
        find_index(nodes.drop_last(), id)
    }
}

pub proof fn lemma_find_index(nodes: Seq<Seq<char>>, id: Seq<char>)
    ensures
        nodes.contains(id) ==> 0 <= find_index(nodes, id) < nodes.len() && nodes[find_index(
            nodes,
            id,
        )] == id,
        !nodes.contains(id) ==> find_index(nodes, id) == -1,
    decreases nodes.len(),
{
    if nodes.len() > 0 && nodes.last() != id {
        lemma_find_index(nodes.drop_last(), id);
        if nodes.contains(id) {
            let i = choose|i: int| 0 <= i < nodes.len() && nodes[i] == id;
            assert(nodes.drop_last()[i] == id);
        }
        if nodes.drop_last().contains(id) {
            let i = choose|i: int| 0 <= i < nodes.len() - 1 && nodes.drop_last()[i] == id;
            assert(nodes[i] == id);
        }
    }
}

/// Registering a node: appended if new, a no-op if already present.
pub open spec fn add_node_m(nodes: Seq<Seq<char>>, id: Seq<char>) -> Seq<Seq<char>> {
    if nodes.contains(id) {
        nodes
    } else {
        nodes.push(id)
    }
}

/// Declaring a dependency: both endpoints are registered as nodes, then an
/// edge from `from` to `to` is appended unless it is already there.
pub open spec fn add_dependency_m(
    nodes: Seq<Seq<char>>,
    edges: Seq<(int, int)>,
    from: Seq<char>,
    to: Seq<char>,
) -> (Seq<Seq<char>>, Seq<(int, int)>) {
    let n2 = add_node_m(add_node_m(nodes, from), to);
    let i = find_index(n2, from);
    let j = find_index(n2, to);
    if edges.contains((i, j)) {
        (n2, edges)
    } else {
        (n2, edges.push((i, j)))
    }
}

/// The direct dependents of `id`: the sources of the edges into it, or
/// nothing at all if `id` was never registered.
pub open spec fn dependents_m(
    nodes: Seq<Seq<char>>,
    edges: Seq<(int, int)>,
    id: Seq<char>,
) -> Seq<Seq<char>> {
    if nodes.contains(id) {
        incoming_sources(nodes, edges, find_index(nodes, id))
    } else {
        Seq::empty()
    }
}

/// Directed graph over file identifiers. The petgraph store holds the nodes
/// and edges; `ids` mirrors the node weights in index order so that an
/// identifier can be looked up without consulting the store.
pub struct DependencyGraph {
    pub graph: petgraph::graph::Graph<String, (), petgraph::Directed>,
    pub ids: Vec<String>,
}

impl DependencyGraph {
    /// The node weights, in index order.
    pub open spec fn nodes(self) -> Seq<Seq<char>> {
        graph_nodes(self.graph)
    }

    /// The edges, as (source index, target index) pairs in addition order.
    pub open spec fn edges(self) -> Seq<(int, int)> {
        graph_edges(self.graph)
    }

    /// Well-formed: the identifier list mirrors the node weights, weights
    /// are unique, and every edge joins two existing nodes.
    pub open spec fn wf(self) -> bool {
        &&& self.ids@.map_values(|s: String| s@) == graph_nodes(self.graph)
        &&& (forall|i: int, j: int|
            0 <= i < j < self.nodes().len() ==> self.nodes()[i] != self.nodes()[j])
        &&& (forall|k: int|
            0 <= k < self.edges().len() ==> 0 <= (#[trigger] self.edges()[k]).0
                < self.nodes().len() && 0 <= self.edges()[k].1 < self.nodes().len())
    }

    pub fn new() -> (r: Self)
        ensures
            r.wf(),
            r.nodes() == no_nodes(),
            r.edges() == no_edges(),
    {
        let r = DependencyGraph { graph: graph_new(), ids: Vec::new() };
        proof {
            assert(r.ids@.map_values(|s: String| s@) =~= graph_nodes(r.graph));
        }
        r
    }

    /// The index of `id` among the nodes, if it is one of them.
    fn index_of(&self, id: &String) -> (r: Option<usize>)
        requires
            self.wf(),
        ensures
            match r {
                Some(i) => self.nodes().contains(id@) && i == find_index(self.nodes(), id@)
                    && i < self.nodes().len(),
                None => !self.nodes().contains(id@),
            },
    {
        let n = self.ids.len();
        for i in 0..n
            invariant
                self.wf(),
                n == self.ids.len(),
                forall|j: int| 0 <= j < i ==> (#[trigger] self.nodes()[j]) != id@,
        {
            if self.ids[i] == *id {
                proof {
                    lemma_find_index(self.nodes(), id@);
                    let vi = i as int;
                    assert(self.nodes()[vi] == self.ids@.map_values(|s: String| s@)[vi]);
                    assert(self.nodes()[i as int] == id@);
                    assert(self.nodes().contains(id@));
                    let f = find_index(self.nodes(), id@);
                    if i as int != f {
                        assert(self.nodes()[f] == id@);
                        assert(false);
                    }
                }
                return Some(i);
            }
        }
        proof {
            lemma_find_index(self.nodes(), id@);
            assert(forall|j: int| 0 <= j < self.nodes().len() ==> self.nodes()[j] != id@);
            if self.nodes().contains(id@) {
                let w = choose|w: int| 0 <= w < self.nodes().len() && self.nodes()[w] == id@;
                assert(false);
            }
        }
        None
    }

    /// Registers `id` as a node if it is not already one; idempotent.
    pub fn add_node(&mut self, id: String)
        requires
            old(self).wf(),
            old(self).nodes().len() < 0xffff_ffff,
        ensures
            final (self).wf(),
            final (self).nodes() == add_node_m(old(self).nodes(), id@),
            final (self).edges() == old(self).edges(),
    {
        let present = self.index_of(&id);
        if present.is_none() {
            let ghost before = self.nodes();
            let idx = graph_add_node(&mut self.graph, id.clone());
            self.ids.push(id);
            proof {
                assert forall|j: int| 0 <= j < self.nodes().len() implies self.ids@.map_values(
                    |s: String| s@,
                )[j] == self.nodes()[j] by {
                    if j < before.len() {
                        assert(self.ids@[j] == old(self).ids@[j]);
                        assert(old(self).ids@.map_values(|s: String| s@)[j] == before[j]);
                    } else {
                        assert(self.ids@[j] == id);
                    }
                }
                assert(self.ids@.map_values(|s: String| s@) =~= self.nodes());
                assert forall|i: int, j: int| 0 <= i < j < self.nodes().len() implies self.nodes()[i]
                    != self.nodes()[j] by {
                    assert(self.nodes()[i] == before.push(id@)[i]);
                    if j == self.nodes().len() - 1 {
                        assert(self.nodes()[i] == before[i]);
                        assert(before.contains(before[i]));
                        assert(self.nodes()[j] == id@);
                    } else {
                        assert(self.nodes()[i] == before[i]);
                        assert(self.nodes()[j] == before[j]);
                    }
                }
                assert forall|k: int|
                    0 <= k < self.edges().len() implies 0 <= (#[trigger] self.edges()[k]).0
                    < self.nodes().len() && 0 <= self.edges()[k].1 < self.nodes().len() by {
                    assert(self.edges()[k] == old(self).edges()[k]);
                }
            }
        }
    }

    /// Ensures both endpoints exist as nodes, then ensures one edge
    /// `from -> to` exists; never duplicates an edge.
    pub fn add_dependency(&mut self, from: &String, to: &String)
        requires
            old(self).wf(),
            old(self).nodes().len() + 2 < 0xffff_ffff,
            old(self).edges().len() < 0xffff_ffff,
        ensures
            final (self).wf(),
            (final (self).nodes(), final (self).edges()) == add_dependency_m(
                old(self).nodes(),
                old(self).edges(),
                from@,
                to@,
            ),
    {
        self.add_node(from.clone());
        self.add_node(to.clone());
        proof {
            let n0 = old(self).nodes();
            let n1 = add_node_m(n0, from@);
            let n2 = add_node_m(n1, to@);
            if !n0.contains(from@) {
                assert(n1[n1.len() - 1] == from@);
            }
            assert(n1.contains(from@));
            if !n1.contains(to@) {
                assert(n2[n2.len() - 1] == to@);
            }
            assert(n2.contains(to@));
            if !n1.contains(to@) {
                let k = choose|k: int| 0 <= k < n1.len() && n1[k] == from@;
                assert(n2[k] == from@);
            }
            assert(n2.contains(from@));
        }
        let i = match self.index_of(from) {
            Some(i) => i,
            None => {
                proof {
                    assert(false);
                }
                0
            },
        };
        let j = match self.index_of(to) {
            Some(j) => j,
            None => {
                proof {
                    assert(false);
                }
                0
            },
        };
        let ghost mid = *self;
        if !graph_contains_edge(&self.graph, i, j) {
            graph_add_edge(&mut self.graph, i, j);
            proof {
                assert(self.ids@.map_values(|s: String| s@) =~= graph_nodes(self.graph));
                assert forall|k: int|
                    0 <= k < self.edges().len() implies 0 <= (#[trigger] self.edges()[k]).0
                    < self.nodes().len() && 0 <= self.edges()[k].1 < self.nodes().len() by {
                    if k < self.edges().len() - 1 {
                        assert(self.edges()[k] == mid.edges()[k]);
                    } else {
                        assert(self.edges()[k] == (i as int, j as int));
                    }
                }
            }
        }
    }

    /// Every node with a direct edge into `file`: the files to notify when
    /// `file` changes. Empty if `file` is unknown or has no dependents.
    pub fn get_dependents(&self, file: &String) -> (r: Vec<String>)
        requires
            self.wf(),
        ensures
            r@.map_values(|s: String| s@) == dependents_m(self.nodes(), self.edges(), file@),
    {
        match self.index_of(file) {
            Some(i) => graph_incoming(&self.graph, i),
            None => {
                let r: Vec<String> = Vec::new();
                proof {
                    assert(r@.map_values(|s: String| s@) =~= Seq::<Seq<char>>::empty());
                }
                r
            },
        }
    }
}

} // verus!
