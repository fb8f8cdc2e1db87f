use selia::constants::RELATIONSHIP_NULL_ID;
use selia::db::db::{Config, DBInner, Version, DB};
use selia::errors::{RelationshipCreationFailure, VertexCreationFailure};
use selia::io::read::{read_all_nodes, read_relationship_locked, read_vertex_locked, rels_from_bytes, vertices_from_bytes};
use selia::db::db::GraphDB;
use selia::io::write::{add_new_node, add_new_relationship, write_relationship_locked, write_vertex_locked};
use selia::iterator::dfs_iterator::{dfs_iter, DfsIterator};
use selia::iterator::node_iterator::{empty_filter, NodeIterator};
use selia::iterator::relationship_iterator::RelationshipIterator;
use selia::methods;
use selia::objects::free_chunks::RelationshipFreeChunks;
use selia::objects::objects::Object;
use selia::objects::property::PropertyFile;
use selia::objects::relationship::{
    FileRelationship, Relationship, RelationshipFile, RelationshipVertexRefs,
};
use selia::objects::vertex::{FileVertex, Vertex, VertexFile};
use selia::types::type_management::TypeFile;

fn empty_db() -> DB {
    let f_tp = TypeFile::new(vec![0u8; 66560]).unwrap();
    DB::new(DBInner::new(
        RelationshipFile::new(vec![]),
        VertexFile::new(vec![]),
        PropertyFile::new(vec![]),
        f_tp,
    ))
}

fn refs(sv: u32, ev: u32, sp: u32, sn: u32, ep: u32, en: u32) -> RelationshipVertexRefs {
    RelationshipVertexRefs::new(sv, ev, sp, sn, ep, en)
}

#[test]
fn version_and_config() {
    let v = Version::new(2, 7);
    assert_eq!(v, Version { major: 2, minor: 7 });
    assert_eq!(Config::default(), Config { version: Version { major: 0, minor: 0 } });
}

#[test]
fn file_vertex_new_fills_null_ids() {
    let fv = FileVertex::new(true, None, Some(4));
    assert_eq!(fv.first_rel, RELATIONSHIP_NULL_ID);
    assert_eq!(fv.first_prop, 4);
    assert!(fv.in_usage);
    let d = Vertex::default();
    assert_eq!(d.id, 0);
    assert_eq!(d.vertex.first_prop, RELATIONSHIP_NULL_ID);
}

#[test]
fn file_vertex_bytes_roundtrip() {
    let fv = FileVertex::new(false, Some(0x01020304), Some(7));
    let bytes = fv.to_bytes();
    assert_eq!(bytes, vec![4, 3, 2, 1, 7, 0, 0, 0, 0, 0, 0, 0, 0]);
    let back = FileVertex::from_bytes(&bytes, 0).unwrap();
    assert_eq!(back, fv);
}

#[test]
fn file_vertex_from_short_bytes_fails() {
    let e = FileVertex::from_bytes(&[1, 2, 3], 0).unwrap_err();
    assert_eq!(e.reason, VertexCreationFailure::WrongByteLength);
    assert_eq!(e.message, "Expected file_vertex_bytes.len() to be 9, got 3");
}

#[test]
fn file_relationship_bytes_roundtrip() {
    let fr = FileRelationship::new(9, 3, true, refs(1, 2, 3, 4, 5, 6));
    let bytes = fr.to_bytes();
    assert_eq!(bytes.len(), 33);
    assert_eq!(&bytes[0..8], &[1, 0, 0, 0, 2, 0, 0, 0]);
    assert_eq!(bytes[32], 1);
    let back = FileRelationship::from_bytes(&bytes, 0).unwrap();
    assert_eq!(back, fr);
    assert_eq!(back.refs(), refs(1, 2, 3, 4, 5, 6));
    assert_eq!(back.props(), 9);
}

#[test]
fn file_relationship_from_short_bytes_fails() {
    let e = FileRelationship::from_bytes(&[0u8; 32], 0).unwrap_err();
    assert_eq!(e.reason, RelationshipCreationFailure::WrongByteLength);
    assert_eq!(e.message, "Expected file_relationship_bytes.len() to be 33, got 32");
}

#[test]
fn relationship_new_refuses_self_loop() {
    let db = empty_db();
    let v0 = Vertex::new(0, FileVertex::new(true, None, None));
    let v1 = Vertex::new(1, FileVertex::new(true, None, None));
    assert!(Relationship::new(&db, 5, v0, v0, 1, 2).is_none());
    let r = Relationship::new(&db, 5, v0, v1, 1, 2).unwrap();
    assert_eq!(r.id, 5);
    assert_eq!(r.rel.vertex_refs, refs(0, 1, 0, 0, 0, 0));
    assert_eq!(Relationship::default().rel.vertex_refs, refs(0, 0, 0, 0, 0, 0));
    let fr = FileRelationship::new(1, 2, true, refs(3, 4, 5, 6, 7, 8));
    assert_eq!(Relationship::from_file_relationship(&fr, 11), Relationship { id: 11, rel: fr });
}

#[test]
fn offsets_of_records() {
    assert_eq!(VertexFile::get_offset_vert(3), 39);
    assert_eq!(RelationshipFile::get_offset_rel(3), 3);
    assert_eq!(RelationshipFile::get_offset(8), 8);
}

#[test]
fn add_node_then_read_it_back() {
    let mut db = empty_db();
    assert_eq!(add_new_node(&mut db, 0, Some(3)).unwrap(), 0);
    assert_eq!(db.add_node(0, None).unwrap(), 1);
    assert_eq!(db.db.f_vert.data.len(), 26);
    let v0 = db.get_node(0).unwrap();
    assert_eq!(v0, Vertex::new(0, FileVertex { first_rel: RELATIONSHIP_NULL_ID, first_prop: 3, in_usage: true }));
    let v1 = read_vertex_locked(&db, 1).unwrap();
    assert_eq!(v1.vertex.first_prop, RELATIONSHIP_NULL_ID);
    assert_eq!(db.db.f_vert.first_available_id, 2);
}

#[test]
fn update_node_writes_under_the_given_id() {
    let mut db = empty_db();
    db.add_node(0, None).unwrap();
    db.add_node(0, None).unwrap();
    let moved = Vertex::new(0, FileVertex::new(false, Some(12), Some(13)));
    db.update_node(1, moved).unwrap();
    let v1 = db.get_node(1).unwrap();
    assert_eq!(v1, Vertex::new(1, FileVertex { first_rel: 12, first_prop: 13, in_usage: false }));
    assert_eq!(db.get_node(0).unwrap().vertex.first_rel, RELATIONSHIP_NULL_ID);
}

#[test]
fn write_vertex_returns_its_id() {
    let mut db = empty_db();
    let v = Vertex::new(2, FileVertex::new(true, None, None));
    assert_eq!(write_vertex_locked(&mut db, v).unwrap(), 2);
    assert_eq!(db.db.f_vert.data.len(), 39);
    assert_eq!(&db.db.f_vert.data[0..26], &[0u8; 26]);
}

#[test]
fn write_relationship_refusals() {
    let mut db = empty_db();
    let self_loop = Relationship { id: 0, rel: FileRelationship::new(0, 0, true, refs(4, 4, 0, 0, 0, 0)) };
    let e = write_relationship_locked(&mut db, self_loop).unwrap_err();
    assert_eq!(e.reason, RelationshipCreationFailure::Other);
    assert_eq!(
        e.message,
        "Cannot write relationship where start == end (vertex cannot have a relationship with itself)"
    );
    let null_id = Relationship { id: RELATIONSHIP_NULL_ID, rel: FileRelationship::new(0, 0, true, refs(1, 2, 0, 0, 0, 0)) };
    let e = write_relationship_locked(&mut db, null_id).unwrap_err();
    assert_eq!(
        e.message,
        "Cannot write relationship with NULL ID (check constant RELATIONSHIP_NULL_ID in constants.rs)"
    );
    assert!(db.db.f_rel.data.is_empty());
}

#[test]
fn read_relationship_errors() {
    let db = empty_db();
    let e = read_relationship_locked(&db, RELATIONSHIP_NULL_ID).unwrap_err();
    assert_eq!(e.reason, RelationshipCreationFailure::ReadNullId);
    assert_eq!(e.message, "Trying to read RELATIONSHIP_NULL_ID");
    let e = read_relationship_locked(&db, 0).unwrap_err();
    assert_eq!(e.reason, RelationshipCreationFailure::IoFailure);
    assert_eq!(e.message, "failed to fill whole buffer");
    assert!(db.get_relationship(0).is_none());
}

#[test]
fn first_relationship_links_both_vertices() {
    let mut db = empty_db();
    db.add_node(0, None).unwrap();
    db.add_node(0, None).unwrap();
    let id = add_new_relationship(&mut db, 0, 1, 7, 9).unwrap();
    assert_eq!(id, 0);
    assert_eq!(db.get_node(0).unwrap().vertex.first_rel, 0);
    assert_eq!(db.get_node(1).unwrap().vertex.first_rel, 0);
    let r = db.get_relationship(0).unwrap();
    assert_eq!(r.rel.vertex_refs, refs(0, 1, RELATIONSHIP_NULL_ID, RELATIONSHIP_NULL_ID, RELATIONSHIP_NULL_ID, RELATIONSHIP_NULL_ID));
    assert_eq!(r.rel.first_prop, 9);
    assert_eq!(r.rel.rel_type, 7);
    assert!(r.rel.in_usage);
    assert_eq!(db.db.f_rel.first_available_id, 1);
}

#[test]
fn second_relationship_of_a_vertex_joins_its_ring() {
    let mut db = empty_db();
    for _ in 0..3 {
        db.add_node(0, None).unwrap();
    }
    db.add_relationship(0, 1, 0, 0).unwrap();
    let id = db.add_relationship(0, 2, 0, 0).unwrap();
    assert_eq!(id, 1);
    assert_eq!(db.get_node(2).unwrap().vertex.first_rel, 1);
    let r1 = db.get_relationship(1).unwrap();
    assert_eq!(r1.rel.vertex_refs, refs(0, 2, 0, 0, RELATIONSHIP_NULL_ID, RELATIONSHIP_NULL_ID));
}

#[test]
fn self_relationship_is_linked_but_not_stored() {
    let mut db = empty_db();
    db.add_node(0, None).unwrap();
    let e = db.add_relationship(0, 0, 1, 1).unwrap_err();
    assert_eq!(e.reason, RelationshipCreationFailure::Other);
    assert_eq!(db.get_node(0).unwrap().vertex.first_rel, 0);
    assert!(db.db.f_rel.data.is_empty());
    assert_eq!(db.db.f_rel.first_available_id, 1);
}

#[test]
fn vertex_prev_next() {
    let mut db = empty_db();
    db.add_node(0, None).unwrap();
    db.add_node(0, None).unwrap();
    let v0 = db.get_node(0).unwrap();
    assert_eq!(v0.get_prev_next(&db), Some((RELATIONSHIP_NULL_ID, RELATIONSHIP_NULL_ID)));
    db.add_relationship(0, 1, 0, 0).unwrap();
    let v0 = db.get_node(0).unwrap();
    let v1 = db.get_node(1).unwrap();
    assert_eq!(v0.get_prev_next(&db), Some((RELATIONSHIP_NULL_ID, 0)));
    assert_eq!(v1.get_prev_next(&db), Some((RELATIONSHIP_NULL_ID, 0)));
    let stranger = Vertex::new(5, FileVertex::new(true, Some(0), None));
    assert_eq!(stranger.get_prev_next(&db), None);
}

fn two_node_graph() -> DB {
    let mut db = empty_db();
    db.add_node(0, None).unwrap();
    db.add_node(0, None).unwrap();
    db.add_relationship(0, 1, 4, 0).unwrap();
    db
}

#[test]
fn neighbours_and_directions() {
    let db = two_node_graph();
    assert_eq!(db.get_neighboring_ids(0), vec![1]);
    assert_eq!(db.get_neighboring_ids(1), vec![0]);
    assert_eq!(db.get_outgoing_relationships(0).len(), 1);
    assert_eq!(db.get_ingoing_relationships(0).len(), 0);
    assert_eq!(db.get_ingoing_relationships(1).len(), 1);
    assert_eq!(db.get_outgoing_relationships(1).len(), 0);
    let ns = db.get_neighbors(0);
    assert_eq!(ns.len(), 1);
    assert_eq!(ns[0].id, 1);
    assert_eq!(methods::get_neighboring_ids(&db, 1), vec![0]);
}

#[test]
fn relationship_iterator_walks_the_ring_once() {
    let db = two_node_graph();
    let mut it = db.rel_iter(0);
    let r = it.next().unwrap();
    assert_eq!(r.id, 0);
    assert!(it.next().is_none());
    assert!(it.next().is_none());
    let mut it = RelationshipIterator::new(&db, 1);
    assert_eq!(it.next().unwrap().rel.vertex_refs.end_vertex, 1);
}

#[test]
fn relationship_iterator_on_vertex_without_relationships() {
    let mut db = empty_db();
    db.add_node(0, None).unwrap();
    let mut it = RelationshipIterator::new(&db, 0);
    assert!(it.next().is_none());
}

#[test]
fn depth_first_walks() {
    let db = two_node_graph();
    assert_eq!(methods::dfs(&db, 0), vec![0, 1]);
    assert_eq!(methods::dfs(&db, 1), vec![1, 0]);
    let mut it = db.dfs(0);
    assert_eq!(it.next(), Some(0));
    assert_eq!(it.next(), Some(1));
    assert_eq!(it.next(), None);
    let mut it = dfs_iter(&db, 1);
    assert_eq!(it.next(), Some(1));
    assert_eq!(it.next(), Some(0));
    assert_eq!(it.next(), None);
    let mut it = DfsIterator::new(&db, 0);
    assert_eq!(it.next(), Some(0));
    assert!(db.bfs(0).is_empty());
}

#[test]
fn all_relationships_from_id_zero() {
    let db = two_node_graph();
    let all = db.get_all_relationships();
    assert_eq!(all.len(), 1);
    assert_eq!(all[0].id, 0);
    let empty = empty_db();
    assert!(methods::get_all_relationships(&empty).is_empty());
}

#[test]
fn all_nodes_come_last_first() {
    let mut db = empty_db();
    db.add_node(0, Some(10)).unwrap();
    db.add_node(0, Some(11)).unwrap();
    db.add_node(0, Some(12)).unwrap();
    let nodes = read_all_nodes(&db);
    assert_eq!(nodes.len(), 3);
    assert_eq!(nodes[0].id, 2);
    assert_eq!(nodes[0].vertex.first_prop, 12);
    assert_eq!(nodes[2].id, 0);
    assert_eq!(db.get_all_nodes().len(), 3);
    let mut it = NodeIterator::new(&db, Some(empty_filter));
    assert_eq!(it.next().unwrap().id, 2);
    assert_eq!(it.next().unwrap().id, 1);
    assert_eq!(it.next().unwrap().id, 0);
    assert!(it.next().is_none());
    assert!(empty_filter(&&nodes[0]));
    // a predicate holds back no vertex
    let mut it = NodeIterator::new(&db, Some(|v: &&Vertex| v.id == 1));
    assert_eq!(it.next().unwrap().id, 2);
    let mut it = NodeIterator::new(&db, None::<fn(&&Vertex) -> bool>);
    assert_eq!(it.next().unwrap().id, 2);
}

#[test]
fn vertices_from_a_page() {
    let mut page = [0u8; 507];
    page[13] = 5;
    page[21] = 1;
    let vs = vertices_from_bytes(&page, 26, 26).unwrap();
    assert_eq!(vs.len(), 2);
    assert_eq!(vs[0].id, 2);
    assert_eq!(vs[1].id, 3);
    assert_eq!(vs[1].vertex.first_rel, 5);
    assert!(vs[1].vertex.in_usage);
    assert!(!vs[0].vertex.in_usage);
}

#[test]
fn free_chunks_start_empty() {
    assert!(RelationshipFreeChunks::new().chunks.is_empty());
}

#[test]
fn relationship_file_reads_a_record() {
    let fr = FileRelationship::new(1, 2, true, refs(3, 4, 5, 6, 7, 8));
    let f = RelationshipFile::new(fr.to_bytes());
    let r = f.read_relationship(0).unwrap();
    assert_eq!(r, Relationship { id: 0, rel: fr });
}

#[test]
fn relationships_of_a_page() {
    let a = FileRelationship::new(1, 2, true, refs(3, 4, 5, 6, 7, 8));
    let b = FileRelationship::new(9, 1, false, refs(4, 3, 0, 0, 0, 0));
    let mut page = [0u8; 495];
    page[0..33].copy_from_slice(&a.to_bytes());
    page[33..66].copy_from_slice(&b.to_bytes());
    let rs = rels_from_bytes(&page, 0, 66).unwrap();
    assert_eq!(rs.len(), 2);
    assert_eq!(rs[0], Relationship { id: 0, rel: a });
    assert_eq!(rs[1], Relationship { id: 1, rel: b });
    let rs = rels_from_bytes(&page, 33, 34).unwrap();
    assert_eq!(rs.len(), 2);
    assert_eq!(rs[0].id, 1);
    assert_eq!(rs[1].id, 2);
    assert_eq!(rs[1].rel, b);
}

#[test]
fn graph_db_reads_a_node() {
    let mut db = empty_db();
    let id = add_new_node(&mut db, 0, Some(5)).unwrap();
    let mut gdb = GraphDB { db, name: "test".to_string(), config: Config::default() };
    let v = GraphDB::get_node(&mut gdb, id).unwrap();
    assert_eq!(v.id, id);
    assert_eq!(v.vertex.first_prop, 5);
    assert!(v.vertex.in_usage);
}

#[test]
fn add_node_refuses_an_unknown_type() {
    let mut db = empty_db();
    let e = add_new_node(&mut db, 600, Some(1)).unwrap_err();
    assert_eq!(e.reason, VertexCreationFailure::Other);
    assert_eq!(e.message, "Getting type from type_id failed");
    assert_eq!(db.db.f_vert.data.len(), 0);
    assert_eq!(db.db.f_vert.first_available_id, 0);
    assert!(db.add_node(600, None).is_err());
    assert_eq!(db.add_node(0, None).unwrap(), 0);
}

#[test]
fn update_node_keeps_other_vertices() {
    let mut db = empty_db();
    db.add_node(0, Some(1)).unwrap();
    db.add_node(0, Some(2)).unwrap();
    let before = db.get_node(0).unwrap();
    let new = Vertex::new(77, FileVertex::new(false, Some(9), Some(4)));
    db.update_node(1, new).unwrap();
    let v1 = db.get_node(1).unwrap();
    assert_eq!(v1.id, 1);
    assert_eq!(v1.vertex, new.vertex);
    assert_eq!(db.get_node(0).unwrap(), before);
}

#[test]
fn depth_first_walk_skips_unreachable_vertices() {
    let mut db = empty_db();
    for _ in 0..3 {
        db.add_node(0, None).unwrap();
    }
    db.add_relationship(0, 1, 4, 0).unwrap();
    assert_eq!(methods::dfs(&db, 0), vec![0, 1]);
    assert_eq!(methods::dfs(&db, 1), vec![1, 0]);
    assert!(!methods::dfs(&db, 0).contains(&2));
}
