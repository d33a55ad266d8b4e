use std::collections::HashSet;
use vstd::prelude::*;

use crate::graph::{
    accepts_way, apply_model, is_road, tags_model, Graph, GraphModel, Primitive, PrimitiveModel,
    Tag, Way,
};

verus! {

broadcast use vstd::std_specs::hash::group_hash_axioms;

/// A point id becomes a dependency when an accepted way refers to it.
pub open spec fn refers_to(p: PrimitiveModel, id: i64) -> bool {
    match p {
        PrimitiveModel::Way(w) => is_road(w.tags) && w.refs.contains(id),
        _ => false,
    }
}

/// First pass: the ids of all points that some accepted way of the extract
/// refers to.
pub open spec fn dependencies(ex: Seq<PrimitiveModel>) -> Set<i64> {
    Set::new(|id: i64| exists|j: int| 0 <= j < ex.len() && #[trigger] refers_to(ex[j], id))
}

/// Second pass: a way is visited iff it is accepted, a point iff it is a
/// dependency, a relation never.
pub open spec fn visited(p: PrimitiveModel, deps: Set<i64>) -> bool {
    match p {
        PrimitiveModel::Way(w) => is_road(w.tags),
        PrimitiveModel::Point(v) => deps.contains(v.id),
        PrimitiveModel::Relation(_) => false,
    }
}

/// The graph after the second pass has gone over the first `n` primitives.
pub open spec fn replay(g: GraphModel, ex: Seq<PrimitiveModel>, deps: Set<i64>, n: int) -> GraphModel
    decreases n,
{
    if n <= 0 {
        g
    } else {
        let prev = replay(g, ex, deps, n - 1);
        if visited(ex[n - 1], deps) {
            apply_model(prev, ex[n - 1])
        } else {
            prev
        }
    }
}

/// Two-pass ingestion of a whole extract into `g`.
pub open spec fn ingest_model(g: GraphModel, ex: Seq<PrimitiveModel>) -> GraphModel {
    replay(g, ex, dependencies(ex), ex.len() as int)
}

pub open spec fn extract_model(ex: Seq<Primitive>) -> Seq<PrimitiveModel> {
    ex.map_values(|p: Primitive| p@)
}

proof fn lemma_dependencies_step(ex: Seq<PrimitiveModel>, i: int)
    requires
        0 <= i < ex.len(),
    ensures
        dependencies(ex.take(i + 1)) == dependencies(ex.take(i)).union(
            Set::new(|id: i64| refers_to(ex[i], id)),
        ),
{
    let pre = ex.take(i);
    let cur = ex.take(i + 1);
    assert forall|id: i64| dependencies(cur).contains(id) implies dependencies(pre).contains(id)
        || refers_to(ex[i], id) by {
        let j = choose|j: int| 0 <= j < cur.len() && #[trigger] refers_to(cur[j], id);
        if j < i {
            assert(refers_to(pre[j], id));
        }
    }
    assert forall|id: i64| dependencies(pre).contains(id) implies dependencies(cur).contains(id) by {
        let j = choose|j: int| 0 <= j < pre.len() && #[trigger] refers_to(pre[j], id);
        assert(refers_to(cur[j], id));
    }
    assert forall|id: i64| refers_to(ex[i], id) implies dependencies(cur).contains(id) by {
        assert(refers_to(cur[i], id));
    }
    assert(dependencies(cur) =~= dependencies(pre).union(Set::new(|id: i64| refers_to(ex[i], id))));
}

fn copy_ids(v: &Vec<i64>) -> (r: Vec<i64>)
    ensures
        r@ == v@,
{
    let mut r: Vec<i64> = Vec::new();
    let mut i: usize = 0;
    while i < v.len()
        invariant
            0 <= i <= v.len(),
            r@ == v@.take(i as int),
        decreases v.len() - i,
    {
        r.push(v[i]);
        i += 1;
        assert(r@ =~= v@.take(i as int));
    }
    assert(v@.take(v.len() as int) =~= v@);
    r
}

fn copy_tags(v: &Vec<Tag>) -> (r: Vec<Tag>)
    ensures
        tags_model(r@) == tags_model(v@),
{
    let mut r: Vec<Tag> = Vec::new();
    let mut i: usize = 0;
    while i < v.len()
        invariant
            0 <= i <= v.len(),
            r.len() == i,
            forall|j: int| 0 <= j < i ==> #[trigger] r@[j]@ == v@[j]@,
        decreases v.len() - i,
    {
        r.push(Tag { key: v[i].key.clone(), value: v[i].value.clone() });
        i += 1;
    }
    assert(tags_model(r@) =~= tags_model(v@));
    r
}

fn copy_way(w: &Way) -> (r: Way)
    ensures
        r@ == w@,
{
    Way { id: w.id, refs: copy_ids(&w.refs), tags: copy_tags(&w.tags) }
}

impl Graph {
    /// Ingests an extract held in memory, in two passes: the first collects
    /// the point ids that accepted ways refer to, the second applies, in
    /// extract order, every accepted way and every point so collected.
    /// Entries accumulate on top of what the graph already holds.
    pub fn ingest(&mut self, extract: &Vec<Primitive>)
        ensures
            final(self)@ == ingest_model(old(self)@, extract_model(extract@)),
    {
        let ghost ex = extract_model(extract@);
        let mut deps: HashSet<i64> = HashSet::new();
        let mut i: usize = 0;
        while i < extract.len()
            invariant
                0 <= i <= extract.len(),
                ex == extract_model(extract@),
                deps@ == dependencies(ex.take(i as int)),
            decreases extract.len() - i,
        {
            proof {
                lemma_dependencies_step(ex, i as int);
            }
            if let Primitive::Way(w) = &extract[i] {
                if accepts_way(&w.tags) {
                    let mut k: usize = 0;
                    while k < w.refs.len()
                        invariant
                            0 <= k <= w.refs.len(),
                            deps@ == dependencies(ex.take(i as int)).union(
                                w.refs@.take(k as int).to_set(),
                            ),
                        decreases w.refs.len() - k,
                    {
                        deps.insert(w.refs[k]);
                        proof {
                            assert(w.refs@.take(k + 1) =~= w.refs@.take(k as int).push(w.refs@[k as int]));
                            w.refs@.take(k as int).lemma_push_to_set_commute(w.refs@[k as int]);
                        }
                        k += 1;
                        assert(deps@ =~= dependencies(ex.take(i as int)).union(
                            w.refs@.take(k as int).to_set(),
                        ));
                    }
                    assert(w.refs@.take(w.refs.len() as int) =~= w.refs@);
                }
            }
            proof {
                let step = Set::new(|id: i64| refers_to(ex[i as int], id));
                assert(ex[i as int] == extract@[i as int]@);
                assert(deps@ =~= dependencies(ex.take(i as int)).union(step));
            }
            i += 1;
        }
        assert(ex.take(extract.len() as int) =~= ex);
        let ghost start = self@;
        let ghost all = dependencies(ex);
        let mut i: usize = 0;
        while i < extract.len()
            invariant
                0 <= i <= extract.len(),
                ex == extract_model(extract@),
                deps@ == all,
                self@ == replay(start, ex, all, i as int),
            decreases extract.len() - i,
        {
            match &extract[i] {
                Primitive::Way(w) => {
                    if accepts_way(&w.tags) {
                        self.apply(Primitive::Way(copy_way(w)));
                    }
                },
                Primitive::Point(v) => {
                    if deps.contains(&v.id) {
                        self.apply(Primitive::Point(*v));
                    }
                },
                Primitive::Relation(_) => {},
            }
            i += 1;
        }
    }
}

} // verus!
