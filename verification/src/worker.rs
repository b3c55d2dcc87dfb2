//! The orchestrator: owns one cache, one dependency graph, one resolver and
//! one transformer, and ties hashing, caching, graph maintenance and
//! pipeline invocation into the incremental-build protocol. Reading file
//! bytes is the caller's part; every decision about them is made here.

use vstd::prelude::*;

use crate::cache::{empty_contents, store_contents, AssetCache, CacheEntry};
use crate::digest::{content_digest, digest_of};
use crate::graph::{
    add_node_m, dependents_m, graph_edges, graph_nodes, no_edges, no_nodes, DependencyGraph,
};
use crate::pipeline::resolver::{resolved_of, Resolver};
use crate::pipeline::transformer::{transformed_of, Transformer};
use crate::text::{dec_of, usize_to_decimal};

verus! {

/// The text String::from_utf8_lossy reads out of a byte sequence,
/// determined by the bytes alone.
pub uninterp spec fn lossy_of(b: Seq<u8>) -> Seq<char>;

/// Relies on String::from_utf8_lossy: the decoded text is a function of
/// the bytes alone.
#[verifier::external_body]
fn utf8_lossy(b: &Vec<u8>) -> (r: String)
    ensures
        r@ == lossy_of(b@),
{
    String::from_utf8_lossy(b).into_owned()
}

/// The orchestrator's state as mathematics: what the cache holds, the
/// graph's nodes and edges, and how often the transformer has run.
#[verifier::ext_equal]
pub struct WorkerModel {
    pub cache: Map<Seq<char>, (Seq<char>, Seq<char>)>,
    pub nodes: Seq<Seq<char>>,
    pub edges: Seq<(int, int)>,
    pub transforms: int,
}

/// The byte views of an optional byte vector.
pub open spec fn opt_bytes(c: Option<Vec<u8>>) -> Option<Seq<u8>> {
    match c {
        Some(v) => Some(v@),
        None => None,
    }
}

/// The output returned in place of a transformation when a file could not
/// be read.
pub open spec fn read_error_of(path: Seq<char>) -> Seq<char> {
    "Error: Could not read "@ + path
}

/// One processing step. Unreadable bytes yield the diagnostic text and
/// leave the state alone. A cache entry whose recorded digest equals the
/// digest of the current bytes is returned as is: no transformation, no
/// state change. Otherwise the source is transformed, the entry is
/// overwritten, and the path is registered as a graph node.
pub open spec fn process_file_m(m: WorkerModel, path: Seq<char>, content: Option<Seq<u8>>) -> (
    WorkerModel,
    Seq<char>,
) {
    match content {
        None => (m, read_error_of(path)),
        Some(bytes) => {
            let d = digest_of(bytes);
            if m.cache.dom().contains(path) && m.cache[path].0 == d {
                (m, m.cache[path].1)
            } else {
                let out = transformed_of(lossy_of(bytes), path);
                (
                    WorkerModel {
                        cache: m.cache.insert(path, (d, out)),
                        nodes: add_node_m(m.nodes, path),
                        edges: m.edges,
                        transforms: m.transforms + 1,
                    },
                    out,
                )
            }
        },
    }
}

/// A batch: every path processed in input order, outputs in that order.
pub open spec fn process_batch_m(
    m: WorkerModel,
    paths: Seq<Seq<char>>,
    contents: Seq<Option<Seq<u8>>>,
) -> (WorkerModel, Seq<Seq<char>>)
    recommends
        paths.len() == contents.len(),
    decreases paths.len(),
{
    if paths.len() == 0 {
        (m, Seq::empty())
    } else {
        let first = process_file_m(m, paths[0], contents[0]);
        let rest = process_batch_m(first.0, paths.drop_first(), contents.drop_first());
        (rest.0, seq![first.1] + rest.1)
    }
}

/// The cache with the entries under `keys` dropped.
pub open spec fn remove_keys(
    cache: Map<Seq<char>, (Seq<char>, Seq<char>)>,
    keys: Seq<Seq<char>>,
) -> Map<Seq<char>, (Seq<char>, Seq<char>)>
    decreases keys.len(),
{
    if keys.len() == 0 {
        cache
    } else {
        remove_keys(cache, keys.drop_last()).remove(keys.last())
    }
}

/// Rebuilding after a change to `path`: the affected files are `path`
/// itself plus its direct dependents; each dependent's cache entry is
/// dropped so its next processing recomputes. One hop only, and the graph
/// is untouched.
pub open spec fn rebuild_m(m: WorkerModel, path: Seq<char>) -> (WorkerModel, Seq<Seq<char>>) {
    let deps = dependents_m(m.nodes, m.edges, path);
    (
        WorkerModel {
            cache: remove_keys(m.cache, deps),
            nodes: m.nodes,
            edges: m.edges,
            transforms: m.transforms,
        },
        seq![path] + deps,
    )
}

/// Viewing each element commutes with appending one.
proof fn lemma_view_push(s: Seq<String>, x: String)
    ensures
        (s.push(x)).map_values(|t: String| t@) =~= s.map_values(|t: String| t@).push(x@),
{
    s.lemma_push_map_commute(|t: String| t@, x);
}

/// The orchestrator. Owns one instance of each component and exposes the
/// public operations of the incremental-build protocol.
pub struct NativeWorker {
    pub pool_size: u32,
    pub cache: AssetCache,
    pub graph: DependencyGraph,
    pub resolver: Resolver,
    pub transformer: Transformer,
    pub transform_calls: u64,
}

impl NativeWorker {
    /// Well-formed: the graph's two structures agree.
    pub open spec fn wf(self) -> bool {
        self.graph.wf()
    }

    /// The orchestrator's state as mathematics.
    pub open spec fn model(self) -> WorkerModel {
        WorkerModel {
            cache: store_contents(self.cache.store),
            nodes: graph_nodes(self.graph.graph),
            edges: graph_edges(self.graph.graph),
            transforms: self.transform_calls as int,
        }
    }

    /// A fresh orchestrator: empty cache, empty graph, worker pool of the
    /// given size, four by default.
    pub fn new(pool_size: Option<u32>) -> (r: Self)
        ensures
            r.wf(),
            r.pool_size == (match pool_size {
                Some(s) => s,
                None => 4u32,
            }),
            r.model().cache == empty_contents(),
            r.model().nodes == no_nodes(),
            r.model().edges == no_edges(),
            r.model().transforms == 0,
    {
        let size = match pool_size {
            Some(s) => s,
            None => 4,
        };
        NativeWorker {
            pool_size: size,
            cache: AssetCache::new(),
            graph: DependencyGraph::new(),
            resolver: Resolver::new(),
            transformer: Transformer::new(),
            transform_calls: 0,
        }
    }

    /// Processes one file given its raw bytes, or their absence if it was
    /// unreadable: digest, cache check, and on a miss transformation,
    /// cache write and graph registration.
    pub fn process_file(&mut self, file_path: String, content: Option<Vec<u8>>) -> (out: String)
        requires
            old(self).wf(),
            old(self).model().nodes.len() < 0xffff_ffff,
            old(self).model().transforms < 0xffff_ffff_ffff_ffff,
        ensures
            final (self).wf(),
            final (self).pool_size == old(self).pool_size,
            final (self).model() == process_file_m(old(self).model(), file_path@, opt_bytes(content)).0,
            out@ == process_file_m(old(self).model(), file_path@, opt_bytes(content)).1,
    {
        match content {
            None => String::from_str("Error: Could not read ").concat(file_path.as_str()),
            Some(bytes) => {
                let d = content_digest(&bytes);
                let hit: Option<String> = match self.cache.get(file_path.as_str()) {
                    Some(entry) => {
                        if entry.hash == d {
                            Some(entry.content)
                        } else {
                            None
                        }
                    },
                    None => None,
                };
                match hit {
                    Some(cached) => {
                        proof {
                            assert(final (self).model() =~= process_file_m(
                                old(self).model(),
                                file_path@,
                                opt_bytes(content),
                            ).0);
                        }
                        cached
                    },
                    None => {
                        let source = utf8_lossy(&bytes);
                        let transformed = self.transformer.transform(
                            source.as_str(),
                            file_path.as_str(),
                        );
                        self.cache.insert(
                            file_path.clone(),
                            CacheEntry { hash: d, content: transformed.clone() },
                        );
                        self.graph.add_node(file_path);
                        self.transform_calls = self.transform_calls + 1;
                        proof {
                            assert(final (self).model() =~= process_file_m(
                                old(self).model(),
                                file_path@,
                                opt_bytes(content),
                            ).0);
                        }
                        transformed
                    },
                }
            },
        }
    }

    /// Drops the cache entry for `path`, if any; the graph keeps the node,
    /// since the file still exists and only its cached output is stale.
    pub fn invalidate(&mut self, file_path: String)
        requires
            old(self).wf(),
        ensures
            final (self).wf(),
            final (self).pool_size == old(self).pool_size,
            final (self).model().cache == old(self).model().cache.remove(file_path@),
            final (self).model().nodes == old(self).model().nodes,
            final (self).model().edges == old(self).model().edges,
            final (self).model().transforms == old(self).model().transforms,
    {
        self.cache_remove(&file_path);
    }

    /// Empties the cache; graph and counters are untouched.
    pub fn clear_cache(&mut self)
        requires
            old(self).wf(),
        ensures
            final (self).wf(),
            final (self).pool_size == old(self).pool_size,
            final (self).model().cache == empty_contents(),
            final (self).model().nodes == old(self).model().nodes,
            final (self).model().edges == old(self).model().edges,
            final (self).model().transforms == old(self).model().transforms,
    {
        self.cache.clear();
    }

    /// The diagnostic statistics line: the number of resident entries.
    pub fn get_cache_stats(&self) -> (r: String)
        ensures
            r@ == "Cache size: "@ + dec_of(self.model().cache.dom().len() as int),
    {
        let n = self.cache.len();
        String::from_str("Cache size: ").concat(usize_to_decimal(n).as_str())
    }

    /// Delegates to the resolver; mutates neither cache nor graph.
    pub fn resolve_dependency(&self, from: String, specifier: String) -> (r: Option<String>)
        ensures
            r matches Some(s) && s@ == resolved_of(specifier@, from@),
    {
        self.resolver.resolve(specifier.as_str(), from.as_str())
    }


    /// The affected set of a change to `file_path`: the path itself plus
    /// its direct dependents, whose cache entries are dropped so that
    /// their next processing recomputes. One hop; the graph is untouched.
    pub fn rebuild(&mut self, file_path: String) -> (affected: Vec<String>)
        requires
            old(self).wf(),
        ensures
            final (self).wf(),
            final (self).pool_size == old(self).pool_size,
            final (self).model() == rebuild_m(old(self).model(), file_path@).0,
            affected@.map_values(|s: String| s@) == rebuild_m(old(self).model(), file_path@).1,
    {
        let ghost pathv = file_path@;
        let deps = self.graph.get_dependents(&file_path);
        let ghost depsv = deps@.map_values(|s: String| s@);
        let mut affected: Vec<String> = Vec::new();
        affected.push(file_path);
        proof {
            assert(affected@.map_values(|s: String| s@) =~= seq![pathv] + depsv.take(0));
            assert(store_contents(self.cache.store) == remove_keys(
                old(self).model().cache,
                depsv.take(0),
            ));
        }
        let n = deps.len();
        for i in 0..n
            invariant
                n == deps.len(),
                depsv == deps@.map_values(|s: String| s@),
                depsv == dependents_m(old(self).model().nodes, old(self).model().edges, pathv),
                self.wf(),
                self.pool_size == old(self).pool_size,
                self.model().nodes == old(self).model().nodes,
                self.model().edges == old(self).model().edges,
                self.model().transforms == old(self).model().transforms,
                store_contents(self.cache.store) == remove_keys(
                    old(self).model().cache,
                    depsv.take(i as int),
                ),
                affected@.map_values(|s: String| s@) == seq![pathv] + depsv.take(i as int),
        {
            let ghost prev = affected@;
            self.cache_remove(&deps[i]);
            affected.push(deps[i].clone());
            proof {
                let vi = i as int;
                assert(deps@.map_values(|s: String| s@)[vi] == deps@[vi]@);
                assert(depsv.take(vi + 1).drop_last() =~= depsv.take(vi));
                assert(depsv.take(vi + 1).last() == depsv[vi]);
                assert(affected@ =~= prev.push(deps@[vi]));
                lemma_view_push(prev, deps@[vi]);
                assert(depsv.take(vi + 1) =~= depsv.take(vi).push(depsv[vi]));
                assert(affected@.map_values(|s: String| s@) =~= seq![pathv] + depsv.take(vi + 1));
            }
        }
        proof {
            assert(depsv.take(n as int) =~= depsv);
            assert(final (self).model() =~= rebuild_m(old(self).model(), pathv).0);
        }
        affected
    }

    /// Processes every path of a batch with its bytes, in input order;
    /// outputs come back in the same order as the paths.
    pub fn process_batch(&mut self, files: Vec<String>, contents: Vec<Option<Vec<u8>>>) -> (outs:
        Vec<String>)
        requires
            old(self).wf(),
            files@.len() == contents@.len(),
            old(self).model().nodes.len() + files@.len() < 0xffff_ffff,
            old(self).model().transforms + files@.len() < 0xffff_ffff_ffff_ffff,
        ensures
            final (self).wf(),
            final (self).pool_size == old(self).pool_size,
            final (self).model() == process_batch_m(
                old(self).model(),
                files@.map_values(|s: String| s@),
                contents@.map_values(|c: Option<Vec<u8>>| opt_bytes(c)),
            ).0,
            outs@.map_values(|s: String| s@) == process_batch_m(
                old(self).model(),
                files@.map_values(|s: String| s@),
                contents@.map_values(|c: Option<Vec<u8>>| opt_bytes(c)),
            ).1,
    {
        let ghost pv = files@.map_values(|s: String| s@);
        let ghost cv = contents@.map_values(|c: Option<Vec<u8>>| opt_bytes(c));
        let mut rest = contents;
        let mut outs: Vec<String> = Vec::new();
        let n = files.len();
        proof {
            assert(pv.skip(0) =~= pv);
            assert(cv.skip(0) =~= cv);
            assert(outs@.map_values(|s: String| s@) =~= Seq::<Seq<char>>::empty());
        }
        for i in 0..n
            invariant
                n == files@.len(),
                pv == files@.map_values(|s: String| s@),
                cv.len() == n,
                rest@.map_values(|c: Option<Vec<u8>>| opt_bytes(c)) == cv.skip(i as int),
                rest@.len() == n - i,
                self.wf(),
                self.pool_size == old(self).pool_size,
                self.model().nodes.len() <= old(self).model().nodes.len() + i,
                self.model().transforms <= old(self).model().transforms + i,
                old(self).model().nodes.len() + n < 0xffff_ffff,
                old(self).model().transforms + n < 0xffff_ffff_ffff_ffff,
                process_batch_m(old(self).model(), pv, cv).0 == process_batch_m(
                    self.model(),
                    pv.skip(i as int),
                    cv.skip(i as int),
                ).0,
                process_batch_m(old(self).model(), pv, cv).1 == outs@.map_values(|s: String| s@)
                    + process_batch_m(self.model(), pv.skip(i as int), cv.skip(i as int)).1,
        {
            let ghost vi = i as int;
            let ghost pre = self.model();
            let ghost prev_outs = outs@;
            let p = files[i].clone();
            let ghost rest_before = rest@;
            let c = rest.remove(0);
            let out = self.process_file(p, c);
            outs.push(out);
            proof {
                assert(pv.skip(vi)[0] == pv[vi]);
                assert(pv[vi] == files@[vi]@);
                assert(cv.skip(vi)[0] == cv[vi]);
                assert(pv.skip(vi).drop_first() =~= pv.skip(vi + 1));
                assert(cv.skip(vi).drop_first() =~= cv.skip(vi + 1));
                assert(rest@ =~= rest_before.drop_first());
                assert(opt_bytes(c) == rest_before.map_values(|x: Option<Vec<u8>>| opt_bytes(x))[0]);
                assert(rest@.map_values(|x: Option<Vec<u8>>| opt_bytes(x)) =~= cv.skip(vi + 1));
                assert(outs@ =~= prev_outs.push(out));
                lemma_view_push(prev_outs, out);
                assert(outs@.map_values(|s: String| s@) =~= prev_outs.map_values(|s: String| s@)
                    + seq![out@]);
            }
        }
        proof {
            assert(pv.skip(n as int) =~= Seq::<Seq<char>>::empty());
            assert(cv.skip(n as int) =~= Seq::<Option<Seq<u8>>>::empty());
            assert(process_batch_m(old(self).model(), pv, cv).1 =~= outs@.map_values(
                |s: String| s@,
            ));
        }
        outs
    }

    /// Removes one key from the cache.
    fn cache_remove(&mut self, key: &String)
        ensures
            final (self).wf() == old(self).wf(),
            final (self).pool_size == old(self).pool_size,
            final (self).model().cache == old(self).model().cache.remove(key@),
            final (self).model().nodes == old(self).model().nodes,
            final (self).model().edges == old(self).model().edges,
            final (self).model().transforms == old(self).model().transforms,
    {
        self.cache.remove(key.as_str());
    }
}

} // verus!
