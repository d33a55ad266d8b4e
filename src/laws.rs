use vstd::prelude::*;

use crate::graph::{apply_model, is_road, EdgeModel, GraphModel, PrimitiveModel, TagModel, Vertex, WayModel};
use crate::ingest::{dependencies, ingest_model, refers_to, replay, visited};

verus! {

/// `e` is the edge that the primitive `p` yields: `p` is an accepted way with
/// the same id and the same point references.
pub open spec fn yields_edge(p: PrimitiveModel, e: EdgeModel) -> bool {
    match p {
        PrimitiveModel::Way(w) => is_road(w.tags) && w.id == e.id && w.refs == e.vertices,
        _ => false,
    }
}

/// `p` is a point primitive carrying exactly the vertex `v`.
pub open spec fn yields_vertex(p: PrimitiveModel, v: Vertex) -> bool {
    p == PrimitiveModel::Point(v)
}

/// `p` is an accepted way with id `id` and the tags `tags`.
pub open spec fn yields_tags(p: PrimitiveModel, id: i64, tags: Seq<TagModel>) -> bool {
    match p {
        PrimitiveModel::Way(w) => is_road(w.tags) && w.id == id && w.tags == tags,
        _ => false,
    }
}

/// Some primitive among the first `n` of `ex` yields the edge `e`.
pub open spec fn edge_from(ex: Seq<PrimitiveModel>, n: int, e: EdgeModel) -> bool {
    exists|j: int| 0 <= j < n && #[trigger] yields_edge(ex[j], e)
}

/// Some primitive among the first `n` of `ex` yields the vertex `v`.
pub open spec fn vertex_from(ex: Seq<PrimitiveModel>, n: int, v: Vertex) -> bool {
    exists|j: int| 0 <= j < n && #[trigger] yields_vertex(ex[j], v)
}

/// Some primitive among the first `n` of `ex` yields the tags `tags` for `id`.
pub open spec fn tags_from(ex: Seq<PrimitiveModel>, n: int, id: i64, tags: Seq<TagModel>) -> bool {
    exists|j: int| 0 <= j < n && #[trigger] yields_tags(ex[j], id, tags)
}

/// Where each entry of `r` comes from, when `r` was built from `g` by
/// primitives among the first `n` of `ex`: the edges of `g` stay in front,
/// and every other entry is one that a way or a point primitive there yields,
/// or is left from `g`.
pub open spec fn built_from(g: GraphModel, r: GraphModel, ex: Seq<PrimitiveModel>, n: int) -> bool {
    &&& g.edges.len() <= r.edges.len()
    &&& r.edges.subrange(0, g.edges.len() as int) == g.edges
    &&& forall|i: int| g.edges.len() <= i < r.edges.len() ==> edge_from(ex, n, #[trigger] r.edges[i])
    &&& forall|id: i64| #[trigger]
        r.vertices.contains_key(id) ==> {
            ||| g.vertices.contains_key(id) && r.vertices[id] == g.vertices[id]
            ||| vertex_from(ex, n, r.vertices[id])
        }
    &&& forall|id: i64| #[trigger]
        r.metadata.contains_key(id) ==> {
            ||| g.metadata.contains_key(id) && r.metadata[id] == g.metadata[id]
            ||| tags_from(ex, n, id, r.metadata[id])
        }
}

proof fn lemma_replay_built_from(g: GraphModel, ex: Seq<PrimitiveModel>, deps: Set<i64>, n: int)
    requires
        0 <= n <= ex.len(),
    ensures
        built_from(g, replay(g, ex, deps, n), ex, n),
    decreases n,
{
    if n == 0 {
        assert(g.edges.subrange(0, g.edges.len() as int) =~= g.edges);
    } else {
        lemma_replay_built_from(g, ex, deps, n - 1);
        let prev = replay(g, ex, deps, n - 1);
        let r = replay(g, ex, deps, n);
        let p = ex[n - 1];
        assert forall|e: EdgeModel| edge_from(ex, n - 1, e) implies edge_from(ex, n, e) by {
            let j = choose|j: int| 0 <= j < n - 1 && #[trigger] yields_edge(ex[j], e);
            assert(yields_edge(ex[j], e));
        }
        assert forall|v: Vertex| vertex_from(ex, n - 1, v) implies vertex_from(ex, n, v) by {
            let j = choose|j: int| 0 <= j < n - 1 && #[trigger] yields_vertex(ex[j], v);
            assert(yields_vertex(ex[j], v));
        }
        assert forall|id: i64, t: Seq<TagModel>| tags_from(ex, n - 1, id, t) implies tags_from(ex, n, id, t) by {
            let j = choose|j: int| 0 <= j < n - 1 && #[trigger] yields_tags(ex[j], id, t);
            assert(yields_tags(ex[j], id, t));
        }
        if visited(p, deps) {
            match p {
                PrimitiveModel::Way(w) => {
                    assert(r.edges.subrange(0, g.edges.len() as int) =~= g.edges);
                    assert forall|i: int| g.edges.len() <= i < r.edges.len() implies edge_from(ex, n, #[trigger] r.edges[i]) by {
                        if i < prev.edges.len() {
                            assert(r.edges[i] == prev.edges[i]);
                        } else {
                            assert(yields_edge(ex[n - 1], r.edges[i]));
                        }
                    }
                    assert forall|id: i64| #[trigger] r.metadata.contains_key(id) && id == w.id implies
                        tags_from(ex, n, id, r.metadata[id]) by {
                        assert(yields_tags(ex[n - 1], id, r.metadata[id]));
                    }
                },
                PrimitiveModel::Point(v) => {
                    assert forall|id: i64| #[trigger] r.vertices.contains_key(id) && id == v.id implies
                        vertex_from(ex, n, r.vertices[id]) by {
                        assert(yields_vertex(ex[n - 1], r.vertices[id]));
                    }
                },
                PrimitiveModel::Relation(_) => {},
            }
        }
    }
}

/// Filter correctness: every edge that ingestion adds to `g` is the edge of
/// a way of the extract that has a tag with the key `highway`, with that
/// way's id and point references; the edges that `g` held stay in front.
pub proof fn lemma_ingested_edges_are_roads(g: GraphModel, ex: Seq<PrimitiveModel>)
    ensures
        ingest_model(g, ex).edges.subrange(0, g.edges.len() as int) == g.edges,
        forall|i: int|
            g.edges.len() <= i < ingest_model(g, ex).edges.len() ==> edge_from(
                ex,
                ex.len() as int,
                #[trigger] ingest_model(g, ex).edges[i],
            ),
{
    lemma_replay_built_from(g, ex, dependencies(ex), ex.len() as int);
}

/// Relations are never ingested: every vertex of the result is left from `g`
/// or carried by a point primitive of the extract, and every edge and every
/// metadata entry is left from `g` or yielded by an accepted way.
pub proof fn lemma_nothing_from_relations(g: GraphModel, ex: Seq<PrimitiveModel>)
    ensures
        built_from(g, ingest_model(g, ex), ex, ex.len() as int),
{
    lemma_replay_built_from(g, ex, dependencies(ex), ex.len() as int);
}

/// Two accepted ways with one id: the metadata of that id holds the later
/// way's tags, and both ways are appended to the edges, in order.
pub proof fn lemma_repeated_way_id(g: GraphModel, first: WayModel, second: WayModel)
    requires
        first.id == second.id,
        is_road(first.tags),
        is_road(second.tags),
    ensures
        ({
            let r = ingest_model(g, seq![PrimitiveModel::Way(first), PrimitiveModel::Way(second)]);
            &&& r.metadata == g.metadata.insert(second.id, second.tags)
            &&& r.edges == g.edges.push(EdgeModel { id: first.id, vertices: first.refs }).push(
                EdgeModel { id: second.id, vertices: second.refs },
            )
            &&& r.vertices == g.vertices
        }),
{
    let ex = seq![PrimitiveModel::Way(first), PrimitiveModel::Way(second)];
    let deps = dependencies(ex);
    assert(replay(g, ex, deps, 0) == g);
    assert(replay(g, ex, deps, 1) == apply_model(g, ex[0]));
    assert(replay(g, ex, deps, 2) == apply_model(apply_model(g, ex[0]), ex[1]));
    assert(g.metadata.insert(first.id, first.tags).insert(second.id, second.tags) =~= g.metadata.insert(
        second.id,
        second.tags,
    ));
}

proof fn lemma_replay_without_ways(g: GraphModel, ex: Seq<PrimitiveModel>, n: int)
    requires
        0 <= n <= ex.len(),
        forall|j: int| 0 <= j < ex.len() ==> !(#[trigger] ex[j] is Way),
    ensures
        replay(g, ex, dependencies(ex), n) == g,
    decreases n,
{
    if n > 0 {
        lemma_replay_without_ways(g, ex, n - 1);
        if let PrimitiveModel::Point(v) = ex[n - 1] {
            if dependencies(ex).contains(v.id) {
                let j = choose|j: int| 0 <= j < ex.len() && #[trigger] refers_to(ex[j], v.id);
                assert(!(ex[j] is Way));
            }
        }
    }
}

/// An extract without ways adds nothing: no way is accepted, so no point is
/// a dependency, and the graph is left as it was (an empty graph stays empty).
pub proof fn lemma_no_ways_no_change(g: GraphModel, ex: Seq<PrimitiveModel>)
    requires
        forall|j: int| 0 <= j < ex.len() ==> !(#[trigger] ex[j] is Way),
    ensures
        ingest_model(g, ex) == g,
{
    lemma_replay_without_ways(g, ex, ex.len() as int);
}

/// The extract with its relation primitives taken out, order kept.
pub open spec fn without_relations(ex: Seq<PrimitiveModel>) -> Seq<PrimitiveModel> {
    ex.filter(|p: PrimitiveModel| !(p is Relation))
}

proof fn lemma_replay_prefix(g: GraphModel, s: Seq<PrimitiveModel>, t: Seq<PrimitiveModel>, deps: Set<i64>, n: int)
    requires
        0 <= n <= s.len(),
        n <= t.len(),
        s.take(n) == t.take(n),
    ensures
        replay(g, s, deps, n) == replay(g, t, deps, n),
    decreases n,
{
    if n > 0 {
        assert(s[n - 1] == s.take(n)[n - 1]);
        assert(t[n - 1] == t.take(n)[n - 1]);
        assert(s.take(n - 1) == s.take(n).take(n - 1));
        assert(t.take(n - 1) == t.take(n).take(n - 1));
        lemma_replay_prefix(g, s, t, deps, n - 1);
    }
}

proof fn lemma_replay_skips_relations(g: GraphModel, ex: Seq<PrimitiveModel>, deps: Set<i64>, n: int)
    requires
        0 <= n <= ex.len(),
    ensures
        replay(g, ex, deps, n) == replay(
            g,
            without_relations(ex.take(n)),
            deps,
            without_relations(ex.take(n)).len() as int,
        ),
    decreases n,
{
    reveal(Seq::filter);
    if n > 0 {
        lemma_replay_skips_relations(g, ex, deps, n - 1);
        let cur = ex.take(n);
        assert(cur.drop_last() =~= ex.take(n - 1));
        assert(cur.last() == ex[n - 1]);
        let before = without_relations(ex.take(n - 1));
        let after = without_relations(cur);
        if !(ex[n - 1] is Relation) {
            assert(after == before.push(ex[n - 1]));
            assert(after.take(before.len() as int) =~= before.take(before.len() as int));
            lemma_replay_prefix(g, after, before, deps, before.len() as int);
        } else {
            assert(after == before);
        }
    }
}

proof fn lemma_dependencies_without_relations(ex: Seq<PrimitiveModel>)
    ensures
        dependencies(without_relations(ex)) == dependencies(ex),
{
    let pred = |p: PrimitiveModel| !(p is Relation);
    let f = without_relations(ex);
    assert forall|id: i64| dependencies(ex).contains(id) implies dependencies(f).contains(id) by {
        let j = choose|j: int| 0 <= j < ex.len() && #[trigger] refers_to(ex[j], id);
        ex.lemma_filter_contains(pred, j);
        let k = choose|k: int| 0 <= k < f.len() && f[k] == ex[j];
        assert(refers_to(f[k], id));
    }
    assert forall|id: i64| dependencies(f).contains(id) implies dependencies(ex).contains(id) by {
        let k = choose|k: int| 0 <= k < f.len() && #[trigger] refers_to(f[k], id);
        assert(f.contains(f[k]));
        ex.lemma_filter_contains_rev(pred, f[k]);
        let j = choose|j: int| 0 <= j < ex.len() && ex[j] == f[k];
        assert(refers_to(ex[j], id));
    }
    assert(dependencies(f) =~= dependencies(ex));
}

/// Relations carry nothing into the graph: ingesting an extract gives the
/// same graph as ingesting it with every relation taken out.
pub proof fn lemma_relations_change_nothing(g: GraphModel, ex: Seq<PrimitiveModel>)
    ensures
        ingest_model(g, ex) == ingest_model(g, without_relations(ex)),
{
    lemma_dependencies_without_relations(ex);
    assert(ex.take(ex.len() as int) =~= ex);
    lemma_replay_skips_relations(g, ex, dependencies(ex), ex.len() as int);
}

/// Each vertex is stored under its own id.
pub open spec fn vertex_keys_match(g: GraphModel) -> bool {
    forall|id: i64| #[trigger] g.vertices.contains_key(id) ==> g.vertices[id].id == id
}

proof fn lemma_replay_keeps_vertex_keys(g: GraphModel, ex: Seq<PrimitiveModel>, deps: Set<i64>, n: int)
    requires
        0 <= n <= ex.len(),
        vertex_keys_match(g),
    ensures
        vertex_keys_match(replay(g, ex, deps, n)),
    decreases n,
{
    if n > 0 {
        lemma_replay_keeps_vertex_keys(g, ex, deps, n - 1);
    }
}

/// Ingestion keeps every vertex under its own id: a point whose id is already
/// present replaces the vertex there.
pub proof fn lemma_ingest_keeps_vertex_keys(g: GraphModel, ex: Seq<PrimitiveModel>)
    requires
        vertex_keys_match(g),
    ensures
        vertex_keys_match(ingest_model(g, ex)),
{
    lemma_replay_keeps_vertex_keys(g, ex, dependencies(ex), ex.len() as int);
}

} // verus!
