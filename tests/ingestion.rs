use phaeton::graph::accepts_way;
use phaeton::{Edge, Graph, Primitive, Tag, Vertex, Way};

fn tag(key: &str, value: &str) -> Tag {
    Tag { key: key.to_string(), value: value.to_string() }
}

fn way(id: i64, refs: Vec<i64>, tags: Vec<Tag>) -> Primitive {
    Primitive::Way(Way { id, refs, tags })
}

fn point(id: i64, lon_bits: u32, lat_bits: u32) -> Primitive {
    Primitive::Point(Vertex { id, lon_bits, lat_bits })
}

fn edge_pairs(g: &Graph) -> Vec<(i64, Vec<i64>)> {
    g.edges.iter().map(|e: &Edge| (e.id, e.vertices.clone())).collect()
}

fn tag_pairs(tags: &[Tag]) -> Vec<(String, String)> {
    tags.iter().map(|t| (t.key.clone(), t.value.clone())).collect()
}

#[test]
fn new_graph_is_empty() {
    let g = Graph::new();
    assert!(g.vertices.is_empty());
    assert!(g.edges.is_empty());
    assert!(g.metadata.is_empty());
}

#[test]
fn filter_accepts_any_highway_value() {
    assert!(accepts_way(&vec![tag("highway", "residential")]));
    assert!(accepts_way(&vec![tag("name", "Main"), tag("highway", "construction")]));
    assert!(accepts_way(&vec![tag("highway", "")]));
}

#[test]
fn filter_rejects_ways_without_highway_key() {
    assert!(!accepts_way(&vec![]));
    assert!(!accepts_way(&vec![tag("building", "yes")]));
    assert!(!accepts_way(&vec![tag("name", "highway")]));
    assert!(!accepts_way(&vec![tag("Highway", "primary")]));
    assert!(!accepts_way(&vec![tag("highways", "primary")]));
}

#[test]
fn synthetic_extract_keeps_only_the_road() {
    let extract = vec![
        point(1, 10, 11),
        point(2, 20, 21),
        point(3, 30, 31),
        point(4, 40, 41),
        way(100, vec![1, 2], vec![tag("highway", "residential")]),
        way(200, vec![3, 4], vec![tag("building", "yes")]),
    ];
    let mut g = Graph::new();
    g.ingest(&extract);
    assert_eq!(edge_pairs(&g), vec![(100, vec![1, 2])]);
    assert_eq!(g.metadata.len(), 1);
    assert_eq!(
        tag_pairs(&g.metadata[&100]),
        vec![("highway".to_string(), "residential".to_string())]
    );
    assert_eq!(g.vertices[&1], Vertex { id: 1, lon_bits: 10, lat_bits: 11 });
    assert_eq!(g.vertices[&2], Vertex { id: 2, lon_bits: 20, lat_bits: 21 });
    assert!(!g.vertices.contains_key(&3));
    assert!(!g.vertices.contains_key(&4));
}

#[test]
fn points_after_their_way_are_still_taken() {
    let extract = vec![way(5, vec![9, 8], vec![tag("highway", "primary")]), point(8, 1, 2), point(9, 3, 4)];
    let mut g = Graph::new();
    g.ingest(&extract);
    assert_eq!(g.vertices.len(), 2);
    assert_eq!(g.vertices[&9], Vertex { id: 9, lon_bits: 3, lat_bits: 4 });
}

#[test]
fn extract_without_ways_gives_empty_graph() {
    let extract = vec![point(1, 1, 1), point(2, 2, 2), Primitive::Relation(3)];
    let mut g = Graph::new();
    g.ingest(&extract);
    assert!(g.edges.is_empty());
    assert!(g.metadata.is_empty());
    assert!(g.vertices.is_empty());
}

#[test]
fn empty_extract_gives_empty_graph() {
    let mut g = Graph::new();
    g.ingest(&vec![]);
    assert!(g.edges.is_empty());
    assert!(g.metadata.is_empty());
    assert!(g.vertices.is_empty());
}

#[test]
fn repeated_way_id_overwrites_tags_and_appends_edges() {
    let extract = vec![
        way(7, vec![1, 2], vec![tag("highway", "primary"), tag("name", "Old")]),
        way(7, vec![2, 3], vec![tag("highway", "secondary")]),
    ];
    let mut g = Graph::new();
    g.ingest(&extract);
    assert_eq!(edge_pairs(&g), vec![(7, vec![1, 2]), (7, vec![2, 3])]);
    assert_eq!(g.metadata.len(), 1);
    assert_eq!(tag_pairs(&g.metadata[&7]), vec![("highway".to_string(), "secondary".to_string())]);
}

#[test]
fn relations_add_nothing() {
    let extract = vec![
        Primitive::Relation(100),
        way(100, vec![1], vec![tag("highway", "service")]),
        Primitive::Relation(1),
        point(1, 5, 6),
    ];
    let mut g = Graph::new();
    g.ingest(&extract);
    assert_eq!(edge_pairs(&g), vec![(100, vec![1])]);
    assert_eq!(g.metadata.len(), 1);
    assert_eq!(g.vertices.len(), 1);

    let mut h = Graph::new();
    h.apply(Primitive::Relation(4));
    assert!(h.edges.is_empty() && h.metadata.is_empty() && h.vertices.is_empty());
}

#[test]
fn repeated_point_id_keeps_last_vertex() {
    let mut g = Graph::new();
    g.apply(point(1, 10, 10));
    g.apply(point(1, 20, 30));
    assert_eq!(g.vertices.len(), 1);
    assert_eq!(g.vertices[&1], Vertex { id: 1, lon_bits: 20, lat_bits: 30 });
}

#[test]
fn ingestion_accumulates() {
    let mut g = Graph::new();
    g.ingest(&vec![way(1, vec![10], vec![tag("highway", "a")]), point(10, 0, 0)]);
    g.ingest(&vec![way(2, vec![20], vec![tag("highway", "b")]), point(20, 0, 0)]);
    assert_eq!(edge_pairs(&g), vec![(1, vec![10]), (2, vec![20])]);
    assert_eq!(g.metadata.len(), 2);
    assert_eq!(g.vertices.len(), 2);
}

#[test]
fn applied_way_copies_refs_and_tags_in_order() {
    let mut g = Graph::new();
    g.apply(way(42, vec![3, 1, 2], vec![tag("b", "2"), tag("a", "1")]));
    assert_eq!(edge_pairs(&g), vec![(42, vec![3, 1, 2])]);
    assert_eq!(
        tag_pairs(&g.metadata[&42]),
        vec![("b".to_string(), "2".to_string()), ("a".to_string(), "1".to_string())]
    );
}

#[test]
fn narrowed_coordinates_are_kept_exactly() {
    let lon: f64 = -157.858093_f64;
    let lat: f64 = 21.306944_f64;
    let mut g = Graph::new();
    g.ingest(&vec![
        way(1, vec![5], vec![tag("highway", "primary")]),
        point(5, (lon as f32).to_bits(), (lat as f32).to_bits()),
    ]);
    let v = g.vertices[&5];
    assert_eq!(f32::from_bits(v.lon_bits), lon as f32);
    assert_eq!(f32::from_bits(v.lat_bits), lat as f32);
    assert_eq!(f32::from_bits(v.lon_bits), -157.858093_f32);
}

#[test]
fn restore_replaces_everything() {
    let mut g = Graph::new();
    g.apply(way(1, vec![1], vec![tag("highway", "a")]));
    g.apply(point(1, 1, 1));
    let mut loaded = Graph::new();
    loaded.apply(way(2, vec![2, 3], vec![tag("highway", "b")]));
    g.restore(loaded);
    assert_eq!(edge_pairs(&g), vec![(2, vec![2, 3])]);
    assert!(g.vertices.is_empty());
    assert_eq!(g.metadata.len(), 1);
    assert!(g.metadata.contains_key(&2));

    g.restore(Graph::new());
    assert!(g.edges.is_empty() && g.metadata.is_empty() && g.vertices.is_empty());
}

#[test]
fn removing_relations_gives_the_same_graph() {
    let with = vec![
        Primitive::Relation(9),
        way(3, vec![1, 2], vec![tag("highway", "track")]),
        Primitive::Relation(1),
        point(2, 7, 8),
        point(1, 5, 6),
        Primitive::Relation(2),
    ];
    let without = vec![
        way(3, vec![1, 2], vec![tag("highway", "track")]),
        point(2, 7, 8),
        point(1, 5, 6),
    ];
    let mut a = Graph::new();
    a.ingest(&with);
    let mut b = Graph::new();
    b.ingest(&without);
    assert_eq!(edge_pairs(&a), edge_pairs(&b));
    assert_eq!(a.vertices, b.vertices);
    assert_eq!(a.metadata.len(), b.metadata.len());
    assert_eq!(tag_pairs(&a.metadata[&3]), tag_pairs(&b.metadata[&3]));
}
