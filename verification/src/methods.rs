//! The operations of the graph database on a database handle.
use vstd::prelude::*;
use crate::base_types::{PropertyId, RelationshipId, TypeID, VertexId};
use crate::constants::RELATIONSHIP_NULL_ID;
use crate::db::db::DB;
use crate::errors::{RelationshipCreationError, VertexCreationError, VertexCreationFailure};
use crate::db::db_methods::{type_by_id, type_node_ok};
use crate::io::read::{read_all_nodes, read_relationship_locked, read_vertex_locked};
use crate::iterator::node_iterator::all_nodes;
use crate::io::write::{
    rel_data_after,
    rel_writable,
    rel_storable,
    vert_data_after,
    vertex_writable,
    write_relationship_locked,
    write_vertex_locked,
};
use crate::objects::relationship::{rel_at, rel_in, Relationship};
use crate::io::write::{add_new_node, add_new_relationship, add_rel_ok, added_rel, linked_rd, linked_vd, new_vertex_record};
use crate::iterator::relationship_iterator::{rel_walk, ring_rels, ring_walk_ends, RelationshipIterator};
use crate::objects::vertex::{vertex_at, vertex_in, Vertex};

verus! {

/// What looking up relationship `id` in the relationship file `data` gives:
/// nothing for the null id and for a record past the end of the file.
pub open spec fn rel_lookup(data: Seq<u8>, id: RelationshipId) -> Option<Relationship> {
    if id != RELATIONSHIP_NULL_ID && rel_in(data, id) {
        Some(rel_at(data, id))
    } else {
        None
    }
}

/// Reads vertex `node_id`, whose record must lie inside the vertex file.
pub fn get_node(db_handle: &DB, node_id: VertexId) -> (r: Result<Vertex, VertexCreationError>)
    requires
        vertex_in(db_handle.vert_data(), node_id),
    ensures
        r matches Ok(v) && v == vertex_at(db_handle.vert_data(), node_id),
{
    read_vertex_locked(db_handle, node_id)
}

/// Stores `new_node` as vertex `node_id`.
pub fn update_node(db_handle: &mut DB, node_id: VertexId, new_node: Vertex) -> (r: Result<
    (),
    VertexCreationError,
>)
    requires
        vertex_writable(node_id),
    ensures
        r is Ok,
        final(db_handle).vert_data() == vert_data_after(
            old(db_handle).vert_data(),
            Vertex { id: node_id, vertex: new_node.vertex },
        ),
        old(db_handle).same_but_vert_data(*final(db_handle)),
        vertex_in(final(db_handle).vert_data(), node_id) && vertex_at(final(db_handle).vert_data(), node_id)
            == (Vertex { id: node_id, vertex: new_node.vertex }),
        forall|id: VertexId|
            id != node_id && vertex_in(old(db_handle).vert_data(), id) ==> vertex_in(
                final(db_handle).vert_data(),
                id,
            ) && #[trigger] vertex_at(final(db_handle).vert_data(), id) == vertex_at(
                old(db_handle).vert_data(),
                id,
            ),
{
    let mut new_node = new_node;
    new_node.id = node_id;
    match write_vertex_locked(db_handle, new_node) {
        Ok(_) => Ok(()),
        Err(e) => Err(e),
    }
}

/// Stores `new_rel` as relationship `rel_id`, under the rules of
/// `write_relationship_locked`.
pub fn update_relationship(db_handle: &mut DB, rel_id: RelationshipId, new_rel: Relationship) -> (r:
    Result<(), RelationshipCreationError>)
    requires
        rel_writable(rel_id),
    ensures
        r is Ok <==> rel_storable(Relationship { id: rel_id, rel: new_rel.rel }),
        r is Ok ==> final(db_handle).rel_data() == rel_data_after(
            old(db_handle).rel_data(),
            Relationship { id: rel_id, rel: new_rel.rel },
        ),
        r is Err ==> final(db_handle).rel_data() == old(db_handle).rel_data(),
        old(db_handle).same_but_rel_data(*final(db_handle)),
{
    let mut new_rel = new_rel;
    new_rel.id = rel_id;
    write_relationship_locked(db_handle, new_rel)
}

/// Looks up relationship `rel_id`.
pub fn get_relationship(db_handle: &DB, rel_id: RelationshipId) -> (r: Option<Relationship>)
    ensures
        r == rel_lookup(db_handle.rel_data(), rel_id),
{
    match read_relationship_locked(db_handle, rel_id) {
        Ok(rel) => Some(rel),
        Err(_) => None,
    }
}


/// The vertex at the other end of relationship `r`, seen from vertex `v`.
pub open spec fn other_end(r: Relationship, v: VertexId) -> VertexId {
    if r.rel.vertex_refs.start_vertex == v {
        r.rel.vertex_refs.end_vertex
    } else {
        r.rel.vertex_refs.start_vertex
    }
}

/// The ring of vertex `v` can be read: the vertex lies in the vertex file,
/// its first relationship can be looked up, and the walk over the ring ends.
pub open spec fn ring_readable(db: DB, v: VertexId) -> bool {
    &&& vertex_in(db.vert_data(), v)
    &&& rel_lookup(db.rel_data(), vertex_at(db.vert_data(), v).vertex.first_rel) is Some
    &&& ring_walk_ends(db, v)
}

/// The ids of the neighbours of vertex `v`, one per relationship of its ring,
/// in the order of the walk.
pub open spec fn neighbor_ids(db: DB, v: VertexId) -> Seq<VertexId> {
    ring_rels(db, v).map_values(|r: Relationship| other_end(r, v))
}

/// Every relationship of the ring of `node_id`, in the order of the walk.
fn ring_of(db_handle: &DB, node_id: VertexId) -> (r: Vec<Relationship>)
    requires
        ring_readable(*db_handle, node_id),
    ensures
        r@ == ring_rels(*db_handle, node_id),
{
    let node = get_node(db_handle, node_id).unwrap();
    let _first_rel = get_relationship(db_handle, node.vertex.first_rel).unwrap();
    let rel_iterator = RelationshipIterator::new(db_handle, node_id);
    rel_iterator.collect_all()
}

/// The relationships among `rels` that end (`at_end`) or start at `v`.
fn keep_touching(rels: &Vec<Relationship>, v: VertexId, at_end: bool) -> (r: Vec<Relationship>)
    ensures
        at_end ==> r@ == rels@.filter(|x: Relationship| x.rel.vertex_refs.end_vertex == v),
        !at_end ==> r@ == rels@.filter(|x: Relationship| x.rel.vertex_refs.start_vertex == v),
{
    let ghost pred = if at_end {
        |x: Relationship| x.rel.vertex_refs.end_vertex == v
    } else {
        |x: Relationship| x.rel.vertex_refs.start_vertex == v
    };
    let mut out: Vec<Relationship> = Vec::new();
    let mut i: usize = 0;
    while i < rels.len()
        invariant
            i <= rels@.len(),
            pred == (if at_end {
                |x: Relationship| x.rel.vertex_refs.end_vertex == v
            } else {
                |x: Relationship| x.rel.vertex_refs.start_vertex == v
            }),
            out@ == rels@.subrange(0, i as int).filter(pred),
        decreases rels@.len() - i,
    {
        let x = rels[i];
        proof {
            reveal(Seq::filter);
            assert(rels@.subrange(0, i + 1).drop_last() == rels@.subrange(0, i as int));
        }
        if (at_end && x.rel.vertex_refs.end_vertex == v) || (!at_end
            && x.rel.vertex_refs.start_vertex == v) {
            out.push(x);
        }
        i += 1;
    }
    assert(rels@.subrange(0, rels@.len() as int) == rels@);
    out
}

/// The relationships of the ring of `node_id` that end at it.
pub fn get_ingoing_relationships(db_handle: &DB, node_id: VertexId) -> (r: Vec<Relationship>)
    requires
        ring_readable(*db_handle, node_id),
    ensures
        r@ == ingoing_rels(*db_handle, node_id),
{
    let rels = ring_of(db_handle, node_id);
    keep_touching(&rels, node_id, true)
}

/// The relationships of the ring of `node_id` that start at it.
pub fn get_outgoing_relationships(db_handle: &DB, node_id: VertexId) -> (r: Vec<Relationship>)
    requires
        ring_readable(*db_handle, node_id),
    ensures
        r@ == outgoing_rels(*db_handle, node_id),
{
    let rels = ring_of(db_handle, node_id);
    keep_touching(&rels, node_id, false)
}

/// The ids of the neighbours of `node_id`, one per relationship of its ring.
pub fn get_neighboring_ids(db_handle: &DB, node_id: VertexId) -> (r: Vec<VertexId>)
    requires
        ring_readable(*db_handle, node_id),
    ensures
        r@ == neighbor_ids(*db_handle, node_id),
{
    let rels = ring_of(db_handle, node_id);
    let mut ids: Vec<VertexId> = Vec::new();
    let mut i: usize = 0;
    while i < rels.len()
        invariant
            i <= rels@.len(),
            ids@ == rels@.subrange(0, i as int).map_values(|r: Relationship| other_end(r, node_id)),
        decreases rels@.len() - i,
    {
        let r = rels[i];
        let id = if r.rel.vertex_refs.start_vertex == node_id {
            r.rel.vertex_refs.end_vertex
        } else {
            r.rel.vertex_refs.start_vertex
        };
        ids.push(id);
        i += 1;
        assert(ids@ =~= rels@.subrange(0, i as int).map_values(
            |r: Relationship| other_end(r, node_id),
        ));
    }
    assert(rels@.subrange(0, rels@.len() as int) == rels@);
    ids
}

/// The neighbours of `node_id`, one per relationship of its ring; each must
/// lie inside the vertex file.
pub fn get_neighbors(db_handle: &DB, node_id: VertexId) -> (r: Vec<Vertex>)
    requires
        ring_readable(*db_handle, node_id),
        forall|k: int|
            0 <= k < neighbor_ids(*db_handle, node_id).len() ==> vertex_in(
                db_handle.vert_data(),
                #[trigger] neighbor_ids(*db_handle, node_id)[k],
            ),
    ensures
        r@ == neighbor_ids(*db_handle, node_id).map_values(
            |id: VertexId| vertex_at(db_handle.vert_data(), id),
        ),
        r@.map_values(|v: Vertex| v.id) == neighbor_ids(*db_handle, node_id),
{
    let ids = get_neighboring_ids(db_handle, node_id);
    let mut out: Vec<Vertex> = Vec::new();
    let mut i: usize = 0;
    while i < ids.len()
        invariant
            i <= ids@.len(),
            ids@ == neighbor_ids(*db_handle, node_id),
            forall|k: int| 0 <= k < ids@.len() ==> vertex_in(db_handle.vert_data(), #[trigger] ids@[k]),
            out@ == ids@.subrange(0, i as int).map_values(
                |id: VertexId| vertex_at(db_handle.vert_data(), id),
            ),
        decreases ids@.len() - i,
    {
        let v = get_node(db_handle, ids[i]).unwrap();
        out.push(v);
        i += 1;
        assert(out@ =~= ids@.subrange(0, i as int).map_values(
            |id: VertexId| vertex_at(db_handle.vert_data(), id),
        ));
    }
    assert(ids@.subrange(0, ids@.len() as int) == ids@);
    assert(out@.map_values(|v: Vertex| v.id) =~= ids@);
    out
}


/// How many relationships `read_all_relationships` finds: the ids from 0 on
/// whose records lie in the relationship file, stopping at the null id.
pub open spec fn stored_rel_count(rd: Seq<u8>) -> nat {
    if rd.len() < 33 {
        0
    } else if rd.len() - 32 < RELATIONSHIP_NULL_ID {
        (rd.len() - 32) as nat
    } else {
        RELATIONSHIP_NULL_ID as nat
    }
}

/// Every relationship stored from id 0 on, up to the first id whose record
/// lies past the end of the relationship file.
pub fn read_all_relationships(db_handle: &DB) -> (r: Result<Vec<Relationship>, RelationshipCreationError>)
    ensures
        r matches Ok(rels) && rels@ == Seq::new(
            stored_rel_count(db_handle.rel_data()),
            |k: int| rel_at(db_handle.rel_data(), k as RelationshipId),
        ),
{
    let ghost rd = db_handle.rel_data();
    let ghost count = stored_rel_count(rd);
    let mut rels: Vec<Relationship> = Vec::new();
    let mut id: RelationshipId = 0;
    loop
        invariant
            rd == db_handle.rel_data(),
            count == stored_rel_count(rd),
            id <= count,
            rels@ == Seq::new(id as nat, |k: int| rel_at(rd, k as RelationshipId)),
        ensures
            rels@ == Seq::new(count, |k: int| rel_at(rd, k as RelationshipId)),
        decreases count - id,
    {
        assert(rel_lookup(rd, id) is Some <==> id < count);
        match get_relationship(db_handle, id) {
            Some(rel) => {
                rels.push(rel);
            },
            None => {
                break;
            },
        }
        id += 1;
        assert(rels@ =~= Seq::new(id as nat, |k: int| rel_at(rd, k as RelationshipId)));
    }
    Ok(rels)
}

/// Every relationship stored from id 0 on.
pub fn get_all_relationships(db_handle: &DB) -> (r: Vec<Relationship>)
    ensures
        r@ == Seq::new(
            stored_rel_count(db_handle.rel_data()),
            |k: int| rel_at(db_handle.rel_data(), k as RelationshipId),
        ),
{
    read_all_relationships(db_handle).unwrap()
}

/// Adds a vertex with the given first property; see `add_new_node`.
pub fn add_node(db_handle: &mut DB, node_type: TypeID, first_prop: Option<PropertyId>) -> (r: Result<
    VertexId,
    VertexCreationError,
>)
    requires
        old(db_handle).db.f_vert.first_available_id < u32::MAX,
        vertex_writable(old(db_handle).db.f_vert.first_available_id),
        type_node_ok(*old(db_handle), node_type),
    ensures
        type_by_id(*old(db_handle), node_type) is Err ==> (r matches Err(e) && e.reason
            == VertexCreationFailure::Other && e.message@ == "Getting type from type_id failed"@
            && *final(db_handle) == *old(db_handle)),
        type_by_id(*old(db_handle), node_type) is Ok ==> ({
            let id = old(db_handle).db.f_vert.first_available_id;
            &&& r == Ok::<VertexId, VertexCreationError>(id)
            &&& final(db_handle).vert_data() == vert_data_after(
                old(db_handle).vert_data(),
                Vertex { id, vertex: new_vertex_record(first_prop) },
            )
            &&& final(db_handle).db.f_vert.first_available_id == id + 1
            &&& final(db_handle).db.f_rel == old(db_handle).db.f_rel
            &&& final(db_handle).db.f_prop == old(db_handle).db.f_prop
            &&& final(db_handle).db.f_tp == old(db_handle).db.f_tp
            &&& final(db_handle).db.indices == old(db_handle).db.indices
        }),
{
    add_new_node(db_handle, node_type, first_prop)
}

/// Adds a relationship; see `add_new_relationship`.
pub fn add_relationship(
    db_handle: &mut DB,
    start_vertex: VertexId,
    end_vertex: VertexId,
    rel_type: TypeID,
    first_prop: PropertyId,
) -> (r: Result<RelationshipId, RelationshipCreationError>)
    requires
        add_rel_ok(*old(db_handle), start_vertex, end_vertex),
    ensures
        r is Ok <==> start_vertex != end_vertex,
        r matches Ok(id) ==> id == old(db_handle).db.f_rel.first_available_id,
        final(db_handle).vert_data() == linked_vd(*old(db_handle), start_vertex, end_vertex),
        r is Ok ==> final(db_handle).rel_data() == rel_data_after(
            linked_rd(*old(db_handle), start_vertex, end_vertex),
            added_rel(*old(db_handle), start_vertex, end_vertex, rel_type, first_prop),
        ),
        r is Err ==> final(db_handle).rel_data() == linked_rd(
            *old(db_handle),
            start_vertex,
            end_vertex,
        ),
        final(db_handle).db.f_rel.first_available_id == old(db_handle).db.f_rel.first_available_id
            + 1,
{
    add_new_relationship(db_handle, start_vertex, end_vertex, rel_type, first_prop)
}

/// The vertices that a depth-first walk from `node` adds to `visited`, when
/// the walk needs at most `fuel` nested steps and every ring it reads can be
/// read: `visited` with the new vertices appended in the order they are
/// reached.
pub open spec fn dfs_from(db: DB, node: VertexId, visited: Seq<VertexId>, fuel: nat) -> Option<Seq<VertexId>>
    decreases fuel, 0nat,
{
    if visited.contains(node) {
        Some(visited)
    } else if fuel == 0 || !ring_readable(db, node) {
        None
    } else {
        dfs_list(db, neighbor_ids(db, node), visited.push(node), (fuel - 1) as nat)
    }
}

/// The depth-first walk from each of `ns` in turn.
pub open spec fn dfs_list(db: DB, ns: Seq<VertexId>, visited: Seq<VertexId>, fuel: nat) -> Option<Seq<VertexId>>
    decreases fuel, ns.len() + 1,
{
    if ns.len() == 0 {
        Some(visited)
    } else {
        match dfs_from(db, ns[0], visited, fuel) {
            Some(v2) => dfs_list(db, ns.drop_first(), v2, fuel),
            None => None,
        }
    }
}

/// The depth-first walk from `start_id` ends.
pub open spec fn dfs_ends(db: DB, start_id: VertexId) -> bool {
    exists|fuel: nat| dfs_from(db, start_id, Seq::empty(), fuel) is Some
}

/// The vertices in the order the depth-first walk from `start_id` reaches
/// them.
pub open spec fn dfs_order(db: DB, start_id: VertexId) -> Seq<VertexId> {
    let fuel = choose|fuel: nat| dfs_from(db, start_id, Seq::empty(), fuel) is Some;
    dfs_from(db, start_id, Seq::empty(), fuel).unwrap()
}

pub(crate) fn contains_id(v: &Vec<VertexId>, x: VertexId) -> (r: bool)
    ensures
        r == v@.contains(x),
{
    let mut i: usize = 0;
    while i < v.len()
        invariant
            i <= v@.len(),
            forall|k: int| 0 <= k < i ==> v@[k] != x,
        decreases v@.len() - i,
    {
        if v[i] == x {
            return true;
        }
        i += 1;
    }
    false
}

/// The vertices reached by a depth-first walk from `start_id`, each once, in
/// the order they are reached.
pub fn dfs(db_handle: &DB, start_id: VertexId) -> (r: Vec<VertexId>)
    requires
        dfs_ends(*db_handle, start_id),
    ensures
        r@ == dfs_order(*db_handle, start_id),
{
    let ghost fuel = choose|fuel: nat| dfs_from(*db_handle, start_id, Seq::empty(), fuel) is Some;
    let mut visited: Vec<VertexId> = Vec::new();
    let mut stack: Vec<VertexId> = Vec::new();
    inner_dfs(db_handle, start_id, &mut visited, &mut stack, Ghost(fuel));
    visited
}

fn inner_dfs(
    db_handle: &DB,
    node: VertexId,
    visited: &mut Vec<VertexId>,
    stack: &mut Vec<VertexId>,
    Ghost(fuel): Ghost<nat>,
)
    requires
        dfs_from(*db_handle, node, old(visited)@, fuel) is Some,
    ensures
        Some(final(visited)@) == dfs_from(*db_handle, node, old(visited)@, fuel),
    decreases fuel,
{
    if contains_id(visited, node) {
        return ;
    }
    visited.push(node);
    stack.push(node);
    let neighbors = get_neighboring_ids(db_handle, node);
    let ghost target = dfs_from(*db_handle, node, old(visited)@, fuel);
    assert(neighbors@.skip(0) =~= neighbors@);
    let mut i: usize = 0;
    while i < neighbors.len()
        invariant
            fuel > 0,
            i <= neighbors@.len(),
            target is Some,
            dfs_list(*db_handle, neighbors@.skip(i as int), visited@, (fuel - 1) as nat) == target,
        decreases neighbors@.len() - i,
    {
        let ghost ns = neighbors@.skip(i as int);
        assert(ns[0] == neighbors@[i as int]);
        assert(ns.drop_first() =~= neighbors@.skip(i + 1));
        inner_dfs(db_handle, neighbors[i], visited, stack, Ghost((fuel - 1) as nat));
        i += 1;
    }
    assert(neighbors@.skip(i as int).len() == 0);
}

/// The breadth-first walk visits nothing: it returns an empty list.
pub fn bfs(db_handle: &DB, start_id: VertexId) -> (r: Vec<VertexId>)
    ensures
        r@ == Seq::<VertexId>::empty(),
{
    let visited: Vec<VertexId> = Vec::new();
    visited
}


/// Every vertex of a vertex file small enough to be read as one page; see
/// `read_all_nodes`.
pub fn get_all_nodes(db_handle: &DB) -> (r: Vec<Vertex>)
    requires
        db_handle.vert_data().len() <= 494,
    ensures
        r@ == all_nodes(db_handle.vert_data()),
{
    read_all_nodes(db_handle)
}


/// A depth-first walk keeps what was visited before it in front, visits
/// every vertex at most once and visits its start.
proof fn lemma_dfs_from_props(db: DB, node: VertexId, visited: Seq<VertexId>, fuel: nat)
    requires
        dfs_from(db, node, visited, fuel) is Some,
        visited.no_duplicates(),
    ensures
        dfs_from(db, node, visited, fuel).unwrap().len() >= visited.len(),
        dfs_from(db, node, visited, fuel).unwrap().subrange(0, visited.len() as int) == visited,
        dfs_from(db, node, visited, fuel).unwrap().no_duplicates(),
        dfs_from(db, node, visited, fuel).unwrap().contains(node),
    decreases fuel, 0nat,
{
    if !visited.contains(node) {
        let v1 = visited.push(node);
        assert(v1.no_duplicates()) by {
            assert forall|i: int, j: int| 0 <= i < v1.len() && 0 <= j < v1.len() && i != j implies v1[i] != v1[j] by {
                if i == visited.len() {
                    assert(visited[j] == v1[j]);
                } else if j == visited.len() {
                    assert(visited[i] == v1[i]);
                }
            }
        }
        lemma_dfs_list_props(db, neighbor_ids(db, node), v1, (fuel - 1) as nat);
        let r = dfs_from(db, node, visited, fuel).unwrap();
        assert(r.subrange(0, visited.len() as int) =~= r.subrange(0, v1.len() as int).subrange(0, visited.len() as int));
        assert(v1.subrange(0, visited.len() as int) =~= visited);
        assert(r == dfs_list(db, neighbor_ids(db, node), v1, (fuel - 1) as nat).unwrap());
        assert(r.subrange(0, v1.len() as int)[visited.len() as int] == node);
        assert(r[visited.len() as int] == node);
    }
}

/// Depth-first walks from each of `ns` in turn keep the earlier visits in
/// front, visit every vertex at most once and visit every one of `ns`.
proof fn lemma_dfs_list_props(db: DB, ns: Seq<VertexId>, visited: Seq<VertexId>, fuel: nat)
    requires
        dfs_list(db, ns, visited, fuel) is Some,
        visited.no_duplicates(),
    ensures
        dfs_list(db, ns, visited, fuel).unwrap().len() >= visited.len(),
        dfs_list(db, ns, visited, fuel).unwrap().subrange(0, visited.len() as int) == visited,
        dfs_list(db, ns, visited, fuel).unwrap().no_duplicates(),
        forall|k: int| 0 <= k < ns.len() ==> dfs_list(db, ns, visited, fuel).unwrap().contains(#[trigger] ns[k]),
    decreases fuel, ns.len() + 1,
{
    if ns.len() > 0 {
        lemma_dfs_from_props(db, ns[0], visited, fuel);
        let v2 = dfs_from(db, ns[0], visited, fuel).unwrap();
        lemma_dfs_list_props(db, ns.drop_first(), v2, fuel);
        let r = dfs_list(db, ns, visited, fuel).unwrap();
        assert(r.subrange(0, visited.len() as int) =~= r.subrange(0, v2.len() as int).subrange(0, visited.len() as int));
        assert forall|k: int| 0 <= k < ns.len() implies r.contains(#[trigger] ns[k]) by {
            if k == 0 {
                let i = choose|i: int| 0 <= i < v2.len() && v2[i] == ns[0];
                assert(r.subrange(0, v2.len() as int)[i] == ns[0]);
                assert(r[i] == ns[0]);
            } else {
                assert(ns.drop_first()[k - 1] == ns[k]);
            }
        }
    }
}

/// The depth-first walk from `start_id` reaches `start_id` first and every
/// vertex at most once.
pub proof fn lemma_dfs_order(db: DB, start_id: VertexId)
    requires
        dfs_ends(db, start_id),
    ensures
        dfs_order(db, start_id).len() > 0,
        dfs_order(db, start_id)[0] == start_id,
        dfs_order(db, start_id).no_duplicates(),
{
    let fuel = choose|fuel: nat| dfs_from(db, start_id, Seq::empty(), fuel) is Some;
    lemma_dfs_from_props(db, start_id, Seq::empty(), fuel);
    let r = dfs_order(db, start_id);
    assert(fuel > 0);
    assert(neighbor_ids(db, start_id).len() >= 0);
    lemma_dfs_list_props(db, neighbor_ids(db, start_id), seq![start_id], (fuel - 1) as nat);
    assert(Seq::<VertexId>::empty().push(start_id) == seq![start_id]);
    assert(r.subrange(0, 1)[0] == start_id);
}


/// A path: a non-empty sequence of vertices, each after the first a
/// neighbour of the one before it.
pub open spec fn is_path(db: DB, p: Seq<VertexId>) -> bool {
    &&& p.len() > 0
    &&& forall|k: int| 0 <= k < p.len() - 1 ==> (#[trigger] neighbor_ids(db, p[k])).contains(p[k + 1])
}

/// `x` can be reached from `s` along a path.
pub open spec fn reachable(db: DB, s: VertexId, x: VertexId) -> bool {
    exists|p: Seq<VertexId>| #[trigger] is_path(db, p) && p[0] == s && p.last() == x
}

/// A vertex reaches itself, and a neighbour of `node` passes on to `node`
/// what it reaches.
proof fn lemma_reach_step(db: DB, node: VertexId, n: VertexId, y: VertexId)
    ensures
        reachable(db, node, node),
        neighbor_ids(db, node).contains(n) && reachable(db, n, y) ==> reachable(db, node, y),
{
    assert(is_path(db, seq![node]));
    if neighbor_ids(db, node).contains(n) && reachable(db, n, y) {
        let p = choose|p: Seq<VertexId>| #[trigger] is_path(db, p) && p[0] == n && p.last() == y;
        let q = seq![node] + p;
        assert forall|k: int| 0 <= k < q.len() - 1 implies (#[trigger] neighbor_ids(db, q[k])).contains(q[k + 1]) by {
            if k > 0 {
                assert(q[k] == p[k - 1] && q[k + 1] == p[k]);
                assert(neighbor_ids(db, p[k - 1]).contains(p[k]));
            }
        }
        assert(is_path(db, q) && q[0] == node && q.last() == y);
    }
}

/// The depth-first walk from `node` keeps what was visited, visits `node`,
/// visits newly only vertices that `node` reaches, and visits every
/// neighbour of a newly visited vertex.
proof fn lemma_dfs_from_reach(db: DB, node: VertexId, visited: Seq<VertexId>, fuel: nat)
    requires
        dfs_from(db, node, visited, fuel) is Some,
    ensures
        ({
            let r = dfs_from(db, node, visited, fuel).unwrap();
            &&& forall|y: VertexId| #[trigger] visited.contains(y) ==> r.contains(y)
            &&& r.contains(node)
            &&& forall|y: VertexId| #[trigger] r.contains(y) && !visited.contains(y) ==> reachable(db, node, y)
            &&& forall|y: VertexId, z: VertexId|
                r.contains(y) && !visited.contains(y) && #[trigger] neighbor_ids(db, y).contains(z) ==> r.contains(z)
        }),
    decreases fuel, 0nat,
{
    if !visited.contains(node) {
        let ns = neighbor_ids(db, node);
        let v1 = visited.push(node);
        let f1 = (fuel - 1) as nat;
        lemma_dfs_list_reach(db, ns, v1, f1);
        let r = dfs_from(db, node, visited, fuel).unwrap();
        assert(r == dfs_list(db, ns, v1, f1).unwrap());
        assert(v1.contains(node)) by {
            assert(v1[visited.len() as int] == node);
        }
        assert forall|y: VertexId| #[trigger] visited.contains(y) implies r.contains(y) by {
            let i = choose|i: int| 0 <= i < visited.len() && visited[i] == y;
            assert(v1[i] == y);
            assert(v1.contains(y));
        }
        assert forall|y: VertexId| #[trigger] r.contains(y) && !visited.contains(y) implies reachable(db, node, y) by {
            lemma_reach_step(db, node, node, node);
            if y != node {
                if v1.contains(y) {
                    let i = choose|i: int| 0 <= i < v1.len() && v1[i] == y;
                    assert(i < visited.len() ==> visited[i] == y);
                }
                let k = choose|k: int| 0 <= k < ns.len() && reachable(db, #[trigger] ns[k], y);
                assert(ns.contains(ns[k]));
                lemma_reach_step(db, node, ns[k], y);
            }
        }
        assert forall|y: VertexId, z: VertexId|
            r.contains(y) && !visited.contains(y) && #[trigger] neighbor_ids(db, y).contains(z) implies r.contains(z) by {
            if y == node {
                let k = choose|k: int| 0 <= k < ns.len() && ns[k] == z;
                assert(r.contains(ns[k]));
            } else {
                if v1.contains(y) {
                    let i = choose|i: int| 0 <= i < v1.len() && v1[i] == y;
                    assert(i < visited.len() ==> visited[i] == y);
                }
            }
        }
    }
}

/// The depth-first walks from each of `ns` in turn keep what was visited,
/// visit every one of `ns`, visit newly only vertices that one of `ns`
/// reaches, and visit every neighbour of a newly visited vertex.
proof fn lemma_dfs_list_reach(db: DB, ns: Seq<VertexId>, visited: Seq<VertexId>, fuel: nat)
    requires
        dfs_list(db, ns, visited, fuel) is Some,
    ensures
        ({
            let r = dfs_list(db, ns, visited, fuel).unwrap();
            &&& forall|y: VertexId| #[trigger] visited.contains(y) ==> r.contains(y)
            &&& forall|k: int| 0 <= k < ns.len() ==> r.contains(#[trigger] ns[k])
            &&& forall|y: VertexId|
                #[trigger] r.contains(y) && !visited.contains(y) ==> exists|k: int|
                    0 <= k < ns.len() && reachable(db, #[trigger] ns[k], y)
            &&& forall|y: VertexId, z: VertexId|
                r.contains(y) && !visited.contains(y) && #[trigger] neighbor_ids(db, y).contains(z) ==> r.contains(z)
        }),
    decreases fuel, ns.len() + 1,
{
    if ns.len() > 0 {
        lemma_dfs_from_reach(db, ns[0], visited, fuel);
        let r1 = dfs_from(db, ns[0], visited, fuel).unwrap();
        let rest = ns.drop_first();
        lemma_dfs_list_reach(db, rest, r1, fuel);
        let r = dfs_list(db, ns, visited, fuel).unwrap();
        assert(r == dfs_list(db, rest, r1, fuel).unwrap());
        assert forall|k: int| 0 <= k < ns.len() implies r.contains(#[trigger] ns[k]) by {
            if k > 0 {
                assert(rest[k - 1] == ns[k]);
            }
        }
        assert forall|y: VertexId| #[trigger] r.contains(y) && !visited.contains(y) implies exists|k: int|
            0 <= k < ns.len() && reachable(db, #[trigger] ns[k], y) by {
            if r1.contains(y) {
                assert(reachable(db, ns[0], y));
            } else {
                let k = choose|k: int| 0 <= k < rest.len() && reachable(db, #[trigger] rest[k], y);
                assert(rest[k] == ns[k + 1]);
                assert(reachable(db, ns[k + 1], y));
            }
        }
    }
}

/// Every vertex on a path from a visited vertex is visited, when every
/// neighbour of a visited vertex is visited.
proof fn lemma_closed_reaches(db: DB, r: Seq<VertexId>, p: Seq<VertexId>)
    requires
        is_path(db, p),
        r.contains(p[0]),
        forall|y: VertexId, z: VertexId| r.contains(y) && #[trigger] neighbor_ids(db, y).contains(z) ==> r.contains(z),
    ensures
        r.contains(p.last()),
    decreases p.len(),
{
    if p.len() > 1 {
        let q = p.drop_first();
        assert(neighbor_ids(db, p[0]).contains(p[1]));
        assert forall|k: int| 0 <= k < q.len() - 1 implies (#[trigger] neighbor_ids(db, q[k])).contains(q[k + 1]) by {
            assert(q[k] == p[k + 1] && q[k + 1] == p[k + 2]);
            assert(neighbor_ids(db, p[k + 1]).contains(p[k + 2]));
        }
        lemma_closed_reaches(db, r, q);
    }
}

/// The depth-first walk from `start_id` visits exactly the vertices that
/// can be reached from `start_id` along relationships, when it ends.
pub proof fn lemma_dfs_visits_reachable(db: DB, start_id: VertexId, x: VertexId)
    requires
        dfs_ends(db, start_id),
    ensures
        dfs_order(db, start_id).contains(x) <==> reachable(db, start_id, x),
{
    let fuel = choose|fuel: nat| dfs_from(db, start_id, Seq::empty(), fuel) is Some;
    lemma_dfs_from_reach(db, start_id, Seq::empty(), fuel);
    let r = dfs_order(db, start_id);
    assert(forall|y: VertexId| !Seq::<VertexId>::empty().contains(y));
    if reachable(db, start_id, x) {
        let p = choose|p: Seq<VertexId>| #[trigger] is_path(db, p) && p[0] == start_id && p.last() == x;
        lemma_closed_reaches(db, r, p);
    }
}

/// What the depth-first iterator has returned once `next` gives nothing,
/// started with the vertices `visited` already returned and `stack` still
/// to be looked at: each step returns the top unvisited vertex and puts its
/// neighbours on the stack, the first neighbour on top. `None` when a
/// returned vertex's ring cannot be read or more than `fuel` vertices would
/// be returned.
pub open spec fn dfs_run(db: DB, visited: Seq<VertexId>, stack: Seq<VertexId>, fuel: nat) -> Option<Seq<VertexId>>
    decreases fuel,
{
    match crate::iterator::dfs_iterator::dfs_pop(visited, stack) {
        None => Some(visited),
        Some((n, rest)) => if fuel == 0 || !ring_readable(db, n) {
            None
        } else {
            dfs_run(db, visited.push(n), rest + neighbor_ids(db, n).reverse(), (fuel - 1) as nat)
        },
    }
}

/// Putting an already returned vertex on the stack changes nothing.
proof fn lemma_dfs_run_skip(db: DB, visited: Seq<VertexId>, stack: Seq<VertexId>, x: VertexId, fuel: nat)
    requires
        visited.contains(x),
    ensures
        dfs_run(db, visited, stack.push(x), fuel) == dfs_run(db, visited, stack, fuel),
{
    assert(stack.push(x).drop_last() =~= stack);
    assert(stack.push(x).last() == x);
}

/// Walking from `x` and then on from `stack` is what the iterator does
/// with `x` on top of `stack`.
proof fn lemma_dfs_run_from(db: DB, x: VertexId, visited: Seq<VertexId>, f: nat, stack: Seq<VertexId>, g: nat)
    requires
        dfs_from(db, x, visited, f) is Some,
    ensures
        dfs_from(db, x, visited, f).unwrap().len() >= visited.len(),
        dfs_run(db, visited, stack.push(x), (g + dfs_from(db, x, visited, f).unwrap().len() - visited.len()) as nat)
            == dfs_run(db, dfs_from(db, x, visited, f).unwrap(), stack, g),
    decreases f, 0nat,
{
    if visited.contains(x) {
        lemma_dfs_run_skip(db, visited, stack, x, g);
    } else {
        let ns = neighbor_ids(db, x);
        let v1 = visited.push(x);
        lemma_dfs_run_list(db, ns, v1, (f - 1) as nat, stack, g);
        let w = dfs_from(db, x, visited, f).unwrap();
        assert(stack.push(x).drop_last() =~= stack);
        assert(stack.push(x).last() == x);
        let big = (g + w.len() - visited.len()) as nat;
        assert(big > 0);
        assert((big - 1) as nat == (g + w.len() - v1.len()) as nat);
    }
}

/// Walking from each of `ns` in turn and then on from `stack` is what the
/// iterator does with `ns` reversed on top of `stack`.
proof fn lemma_dfs_run_list(db: DB, ns: Seq<VertexId>, visited: Seq<VertexId>, f: nat, stack: Seq<VertexId>, g: nat)
    requires
        dfs_list(db, ns, visited, f) is Some,
    ensures
        dfs_list(db, ns, visited, f).unwrap().len() >= visited.len(),
        dfs_run(db, visited, stack + ns.reverse(), (g + dfs_list(db, ns, visited, f).unwrap().len() - visited.len()) as nat)
            == dfs_run(db, dfs_list(db, ns, visited, f).unwrap(), stack, g),
    decreases f, ns.len() + 1,
{
    if ns.len() == 0 {
        assert(stack + ns.reverse() =~= stack);
    } else {
        let x = ns[0];
        let rest = ns.drop_first();
        let v2 = dfs_from(db, x, visited, f).unwrap();
        let w = dfs_list(db, ns, visited, f).unwrap();
        let s2 = stack + rest.reverse();
        lemma_dfs_run_list(db, rest, v2, f, stack, g);
        let g2 = (g + w.len() - v2.len()) as nat;
        lemma_dfs_run_from(db, x, visited, f, s2, g2);
        assert(stack + ns.reverse() =~= s2.push(x));
        assert((g2 + v2.len() - visited.len()) as nat == (g + w.len() - visited.len()) as nat);
    }
}

/// The depth-first iterator started at `start_id` (what `dfs_iter` and
/// `DB::dfs` return) returns the vertices of `dfs_order(db, start_id)`, in
/// that order, before `next` gives nothing: both entry points therefore
/// yield the same sequence, the one `dfs` returns.
pub proof fn lemma_dfs_iterator_order(db: DB, start_id: VertexId)
    requires
        dfs_ends(db, start_id),
    ensures
        dfs_run(db, Seq::empty(), seq![start_id], dfs_order(db, start_id).len()) == Some(dfs_order(db, start_id)),
{
    let fuel = choose|fuel: nat| dfs_from(db, start_id, Seq::empty(), fuel) is Some;
    let w = dfs_order(db, start_id);
    lemma_dfs_run_from(db, start_id, Seq::empty(), fuel, Seq::empty(), 0);
    assert(Seq::<VertexId>::empty().push(start_id) =~= seq![start_id]);
    assert(crate::iterator::dfs_iterator::dfs_pop(w, Seq::empty()) is None);
}

/// Every relationship that a walk of the ring of `v` returns has `v` as its
/// start or end vertex.
proof fn lemma_rel_walk_touches(
    rd: Seq<u8>,
    v: VertexId,
    start: Option<RelationshipId>,
    next: RelationshipId,
    fuel: nat,
)
    requires
        rel_walk(rd, v, start, next, fuel) is Some,
    ensures
        forall|i: int|
            #![trigger rel_walk(rd, v, start, next, fuel).unwrap()[i]]
            0 <= i < rel_walk(rd, v, start, next, fuel).unwrap().len() ==> ({
                let x = rel_walk(rd, v, start, next, fuel).unwrap()[i];
                x.rel.vertex_refs.start_vertex == v || x.rel.vertex_refs.end_vertex == v
            }),
    decreases fuel,
{
    let (item, s2, n2) = crate::iterator::relationship_iterator::rel_step(rd, v, start, next);
    if let Some(r) = item {
        if fuel > 0 {
            lemma_rel_walk_touches(rd, v, s2, n2, (fuel - 1) as nat);
            let rest = rel_walk(rd, v, s2, n2, (fuel - 1) as nat).unwrap();
            let all = rel_walk(rd, v, start, next, fuel).unwrap();
            assert(all == seq![r] + rest);
            assert forall|i: int| 0 <= i < all.len() implies (all[i].rel.vertex_refs.start_vertex == v
                || all[i].rel.vertex_refs.end_vertex == v) by {
                if i > 0 {
                    assert(all[i] == rest[i - 1]);
                }
            }
        }
    }
}

/// Every relationship of the ring of `v` has `v` as its start or end
/// vertex.
pub proof fn lemma_ring_touches(db: DB, v: VertexId)
    requires
        ring_walk_ends(db, v),
    ensures
        forall|i: int|
            0 <= i < ring_rels(db, v).len() ==> (#[trigger] ring_rels(db, v)[i]).rel.vertex_refs.start_vertex
                == v || ring_rels(db, v)[i].rel.vertex_refs.end_vertex == v,
{
    let fuel = choose|fuel: nat|
        rel_walk(db.rel_data(), v, None, vertex_at(db.vert_data(), v).vertex.first_rel, fuel) is Some;
    lemma_rel_walk_touches(db.rel_data(), v, None, vertex_at(db.vert_data(), v).vertex.first_rel, fuel);
}

/// Splitting `s` into the relationships that end at `v` and those that
/// start at it loses and repeats nothing, when each touches `v` and none
/// is a loop.
proof fn lemma_split_by_direction(s: Seq<Relationship>, v: VertexId)
    requires
        forall|i: int|
            0 <= i < s.len() ==> ((#[trigger] s[i]).rel.vertex_refs.start_vertex == v
                || s[i].rel.vertex_refs.end_vertex == v) && s[i].rel.vertex_refs.start_vertex
                != s[i].rel.vertex_refs.end_vertex,
    ensures
        s.filter(|x: Relationship| x.rel.vertex_refs.end_vertex == v).to_multiset().add(
            s.filter(|x: Relationship| x.rel.vertex_refs.start_vertex == v).to_multiset(),
        ) =~= s.to_multiset(),
    decreases s.len(),
{
    broadcast use vstd::seq_lib::group_to_multiset_ensures;

    reveal(Seq::filter);
    let fin = |x: Relationship| x.rel.vertex_refs.end_vertex == v;
    let fout = |x: Relationship| x.rel.vertex_refs.start_vertex == v;
    if s.len() == 0 {
        assert(s.filter(fin) =~= Seq::<Relationship>::empty());
        assert(s.filter(fout) =~= Seq::<Relationship>::empty());
    } else {
        let rest = s.drop_last();
        assert forall|i: int| 0 <= i < rest.len() implies ((#[trigger] rest[i]).rel.vertex_refs.start_vertex == v
            || rest[i].rel.vertex_refs.end_vertex == v) && rest[i].rel.vertex_refs.start_vertex
            != rest[i].rel.vertex_refs.end_vertex by {
            assert(rest[i] == s[i]);
        }
        lemma_split_by_direction(rest, v);
        let x = s.last();
        assert(s == rest.push(x));
        assert(s[s.len() - 1] == x);
        if fin(x) {
            assert(s.filter(fin) == rest.filter(fin).push(x));
            assert(s.filter(fout) == rest.filter(fout));
        } else {
            assert(s.filter(fin) == rest.filter(fin));
            assert(s.filter(fout) == rest.filter(fout).push(x));
        }
    }
}

/// The relationships of the ring of `v` that end at `v`, in ring order.
pub open spec fn ingoing_rels(db: DB, v: VertexId) -> Seq<Relationship> {
    ring_rels(db, v).filter(|x: Relationship| x.rel.vertex_refs.end_vertex == v)
}

/// The relationships of the ring of `v` that start at `v`, in ring order.
pub open spec fn outgoing_rels(db: DB, v: VertexId) -> Seq<Relationship> {
    ring_rels(db, v).filter(|x: Relationship| x.rel.vertex_refs.start_vertex == v)
}

/// The ingoing and the outgoing relationships of a vertex together are its
/// ring, each relationship once, when no relationship of the ring is a
/// loop: as multisets, what `get_ingoing_relationships` and
/// `get_outgoing_relationships` return add up to the ring that the
/// relationship iterator walks, and no relationship is in both.
pub proof fn lemma_in_out_partition(db: DB, v: VertexId)
    requires
        ring_walk_ends(db, v),
        forall|i: int|
            0 <= i < ring_rels(db, v).len() ==> (#[trigger] ring_rels(db, v)[i]).rel.vertex_refs.start_vertex
                != ring_rels(db, v)[i].rel.vertex_refs.end_vertex,
    ensures
        ingoing_rels(db, v).to_multiset().add(outgoing_rels(db, v).to_multiset()) == ring_rels(db, v).to_multiset(),
        forall|y: Relationship| #[trigger] ingoing_rels(db, v).contains(y) ==> !outgoing_rels(db, v).contains(y),
{
    broadcast use vstd::seq_lib::group_filter_ensures, vstd::seq_lib::group_to_multiset_ensures;

    let s = ring_rels(db, v);
    let fin = |x: Relationship| x.rel.vertex_refs.end_vertex == v;
    let fout = |x: Relationship| x.rel.vertex_refs.start_vertex == v;
    lemma_ring_touches(db, v);
    lemma_split_by_direction(s, v);
    assert(ingoing_rels(db, v) == s.filter(fin));
    assert(outgoing_rels(db, v) == s.filter(fout));
    assert forall|y: Relationship| #[trigger] s.filter(fin).contains(y) implies !s.filter(fout).contains(y) by {
        if s.filter(fout).contains(y) {
            let i = choose|i: int| 0 <= i < s.filter(fin).len() && s.filter(fin)[i] == y;
            let j = choose|j: int| 0 <= j < s.filter(fout).len() && s.filter(fout)[j] == y;
            assert(fin(s.filter(fin)[i]));
            assert(fout(s.filter(fout)[j]));
            assert(s.to_multiset().count(y) > 0);
            let k = choose|k: int| 0 <= k < s.len() && s[k] == y;
            assert(s[k].rel.vertex_refs.start_vertex != s[k].rel.vertex_refs.end_vertex);
        }
    }
}

} // verus!
