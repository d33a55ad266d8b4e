use std::collections::HashMap;
use vstd::prelude::*;

verus! {

broadcast use vstd::std_specs::hash::group_hash_axioms;

/// A graph vertex representing a geometric point.
///
/// The coordinates are single-precision floats (datum WGS 84), held here as
/// their IEEE-754 bit patterns so that they are carried through unchanged.
#[derive(Clone, Copy, Debug, PartialEq, Eq, Structural)]
pub struct Vertex {
    /// Graph identifier, used for relational joins.
    pub id: i64,
    /// Bit pattern of the 32-bit longitude.
    pub lon_bits: u32,
    /// Bit pattern of the 32-bit latitude.
    pub lat_bits: u32,
}

/// A junction linking two or more edges; declared for later routing work and
/// not filled by ingestion.
#[derive(Debug)]
pub struct Node {
    /// Graph identifier, used for relational joins.
    pub id: i64,
    /// Identifiers of the connected edges.
    pub edges: Vec<i64>,
}

/// A graph edge: one way segment, as the ordered ids of its vertices.
#[derive(Debug)]
pub struct Edge {
    /// Graph identifier, taken from the source way.
    pub id: i64,
    /// Ids of the vertices, in traversal order.
    pub vertices: Vec<i64>,
}

/// A key / value metadata item, copied verbatim from a way.
#[derive(Debug)]
pub struct Tag {
    pub key: String,
    pub value: String,
}

/// A linear way of the source extract: ordered point references and tags.
#[derive(Debug)]
pub struct Way {
    pub id: i64,
    pub refs: Vec<i64>,
    pub tags: Vec<Tag>,
}

/// One primitive of a source extract. Points that the source encodes densely
/// are handed over in the same `Point` shape.
#[derive(Debug)]
pub enum Primitive {
    Way(Way),
    Point(Vertex),
    /// A grouping primitive; it carries nothing that the graph keeps.
    Relation(i64),
}

/// Core graph data structure.
#[derive(Debug)]
pub struct Graph {
    pub vertices: HashMap<i64, Vertex>,
    pub edges: Vec<Edge>,
    pub metadata: HashMap<i64, Vec<Tag>>,
}

/// What a tag holds: its key and value as character sequences.
pub struct TagModel {
    pub key: Seq<char>,
    pub value: Seq<char>,
}

/// What an edge holds: its id and its vertex ids in order.
pub struct EdgeModel {
    pub id: i64,
    pub vertices: Seq<i64>,
}

/// What a way holds: its id, point references and tags.
pub struct WayModel {
    pub id: i64,
    pub refs: Seq<i64>,
    pub tags: Seq<TagModel>,
}

/// What a primitive holds.
pub enum PrimitiveModel {
    Way(WayModel),
    Point(Vertex),
    Relation(i64),
}

/// The content of a graph: what two graphs must share to be content-equal.
pub struct GraphModel {
    pub vertices: Map<i64, Vertex>,
    pub edges: Seq<EdgeModel>,
    pub metadata: Map<i64, Seq<TagModel>>,
}

impl View for Tag {
    type V = TagModel;

    open spec fn view(&self) -> TagModel {
        TagModel { key: self.key@, value: self.value@ }
    }
}

impl View for Edge {
    type V = EdgeModel;

    open spec fn view(&self) -> EdgeModel {
        EdgeModel { id: self.id, vertices: self.vertices@ }
    }
}

pub open spec fn tags_model(tags: Seq<Tag>) -> Seq<TagModel> {
    tags.map_values(|t: Tag| t@)
}

impl View for Way {
    type V = WayModel;

    open spec fn view(&self) -> WayModel {
        WayModel { id: self.id, refs: self.refs@, tags: tags_model(self.tags@) }
    }
}

impl View for Primitive {
    type V = PrimitiveModel;

    open spec fn view(&self) -> PrimitiveModel {
        match self {
            Primitive::Way(w) => PrimitiveModel::Way(w@),
            Primitive::Point(v) => PrimitiveModel::Point(*v),
            Primitive::Relation(id) => PrimitiveModel::Relation(*id),
        }
    }
}

impl View for Graph {
    type V = GraphModel;

    open spec fn view(&self) -> GraphModel {
        GraphModel {
            vertices: self.vertices@,
            edges: self.edges@.map_values(|e: Edge| e@),
            metadata: self.metadata@.map_values(|ts: Vec<Tag>| tags_model(ts@)),
        }
    }
}

impl GraphModel {
    pub open spec fn empty() -> GraphModel {
        GraphModel { vertices: Map::empty(), edges: Seq::empty(), metadata: Map::empty() }
    }
}

/// A way belongs to the road network iff one of its tags has the key
/// `highway`, whatever its value.
pub open spec fn is_road(tags: Seq<TagModel>) -> bool {
    exists|i: int| 0 <= i < tags.len() && #[trigger] tags[i].key == "highway"@
}

/// What the graph builder does with one visited primitive: a way appends an
/// edge and sets the way's tags as the metadata of its id (the last write
/// wins); a point inserts or replaces the vertex of its id; a relation
/// changes nothing.
pub open spec fn apply_model(g: GraphModel, p: PrimitiveModel) -> GraphModel {
    match p {
        PrimitiveModel::Way(w) => GraphModel {
            edges: g.edges.push(EdgeModel { id: w.id, vertices: w.refs }),
            metadata: g.metadata.insert(w.id, w.tags),
            ..g
        },
        PrimitiveModel::Point(v) => GraphModel { vertices: g.vertices.insert(v.id, v), ..g },
        PrimitiveModel::Relation(_) => g,
    }
}

/// The ingestion filter: true iff some tag of the way has the key `highway`.
pub fn accepts_way(tags: &Vec<Tag>) -> (r: bool)
    ensures
        r == is_road(tags_model(tags@)),
{
    let highway: String = "highway".to_owned();
    let ghost model = tags_model(tags@);
    let mut i: usize = 0;
    while i < tags.len()
        invariant
            0 <= i <= tags.len(),
            highway@ == "highway"@,
            model == tags_model(tags@),
            forall|j: int| 0 <= j < i ==> model[j].key != "highway"@,
        decreases tags.len() - i,
    {
        if tags[i].key == highway {
            assert(model[i as int].key == "highway"@);
            return true;
        }
        i += 1;
    }
    false
}

impl Graph {
    /// Constructs an empty graph.
    pub fn new() -> (g: Graph)
        ensures
            g@ == GraphModel::empty(),
    {
        let g = Graph { vertices: HashMap::new(), edges: Vec::new(), metadata: HashMap::new() };
        assert(g@.edges =~= Seq::<EdgeModel>::empty());
        assert(g@.metadata =~= Map::<i64, Seq<TagModel>>::empty());
        g
    }

    /// Applies one visited primitive to the graph (see `apply_model`).
    pub fn apply(&mut self, p: Primitive)
        ensures
            final(self)@ == apply_model(old(self)@, p@),
    {
        match p {
            Primitive::Way(w) => {
                let id = w.id;
                self.edges.push(Edge { id, vertices: w.refs });
                self.metadata.insert(id, w.tags);
                assert(self@.edges =~= apply_model(old(self)@, p@).edges);
                assert(self@.metadata =~= apply_model(old(self)@, p@).metadata);
            },
            Primitive::Point(v) => {
                self.vertices.insert(v.id, v);
            },
            Primitive::Relation(_) => {},
        }
    }

    /// Replaces the three parts of the graph wholesale with those of a graph
    /// read back from a snapshot.
    pub fn restore(&mut self, loaded: Graph)
        ensures
            final(self)@ == loaded@,
    {
        self.vertices = loaded.vertices;
        self.edges = loaded.edges;
        self.metadata = loaded.metadata;
    }
}

} // verus!
