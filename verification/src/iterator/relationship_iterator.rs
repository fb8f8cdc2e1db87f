//! Walking the ring of relationships of one vertex.
//!
//! The walk starts at the vertex's first relationship and follows, in each
//! relationship, the next pointer on the side of the searched vertex, until
//! it comes back to the relationship it started from. It stops early at the
//! null id and at a relationship that does not touch the searched vertex;
//! that relationship is not returned.
use vstd::prelude::*;
use crate::base_types::{RelationshipId, VertexId};
use crate::constants::RELATIONSHIP_NULL_ID;
use crate::db::db::DB;
use crate::objects::relationship::{rel_at, rel_in, Relationship};
use crate::objects::vertex::{vertex_at, vertex_in};

verus! {

/// Which way a relationship ring is walked.
#[derive(Debug, Clone, Copy, PartialEq, Eq)]
pub enum IterDirection {
    Forward,
    Backwards,
}

/// One step of the walk over the ring of vertex `v` in the relationship file
/// `rd`, from the state (`start`, `next`): the relationship returned, if any,
/// and the new state.
pub open spec fn rel_step(
    rd: Seq<u8>,
    v: VertexId,
    start: Option<RelationshipId>,
    next: RelationshipId,
) -> (Option<Relationship>, Option<RelationshipId>, RelationshipId) {
    if start is Some && next == start.unwrap() {
        (None, start, next)
    } else {
        let s = if start is None {
            Some(next)
        } else {
            start
        };
        if next == RELATIONSHIP_NULL_ID {
            (None, s, next)
        } else {
            let r = rel_at(rd, next);
            if r.rel.vertex_refs.start_vertex == v {
                (Some(r), s, r.rel.vertex_refs.start_next)
            } else if r.rel.vertex_refs.end_vertex == v {
                (Some(r), s, r.rel.vertex_refs.end_next)
            } else {
                (None, s, next)
            }
        }
    }
}

/// The step from (`start`, `next`) runs to completion: the record it reads
/// lies inside the relationship file.
pub open spec fn rel_step_ok(rd: Seq<u8>, start: Option<RelationshipId>, next: RelationshipId) -> bool {
    (start is Some && next == start.unwrap()) || next == RELATIONSHIP_NULL_ID || rel_in(rd, next)
}

/// The relationships that the walk from (`start`, `next`) returns before it
/// first returns nothing, when that happens within `fuel` steps that all run
/// to completion.
pub open spec fn rel_walk(
    rd: Seq<u8>,
    v: VertexId,
    start: Option<RelationshipId>,
    next: RelationshipId,
    fuel: nat,
) -> Option<Seq<Relationship>>
    decreases fuel,
{
    if !rel_step_ok(rd, start, next) {
        None
    } else {
        let (item, s2, n2) = rel_step(rd, v, start, next);
        match item {
            None => Some(Seq::empty()),
            Some(r) => if fuel == 0 {
                None
            } else {
                match rel_walk(rd, v, s2, n2, (fuel - 1) as nat) {
                    Some(rest) => Some(seq![r] + rest),
                    None => None,
                }
            },
        }
    }
}

/// Two walks from the same state that both end give the same relationships.
pub proof fn lemma_rel_walk_unique(
    rd: Seq<u8>,
    v: VertexId,
    start: Option<RelationshipId>,
    next: RelationshipId,
    f1: nat,
    f2: nat,
)
    requires
        rel_walk(rd, v, start, next, f1) is Some,
        rel_walk(rd, v, start, next, f2) is Some,
    ensures
        rel_walk(rd, v, start, next, f1) == rel_walk(rd, v, start, next, f2),
    decreases f1,
{
    let (item, s2, n2) = rel_step(rd, v, start, next);
    if item is Some && f1 > 0 && f2 > 0 {
        lemma_rel_walk_unique(rd, v, s2, n2, (f1 - 1) as nat, (f2 - 1) as nat);
    }
}

/// The walk over the ring of vertex `v` ends after finitely many steps that
/// all run to completion.
pub open spec fn ring_walk_ends(db: DB, v: VertexId) -> bool {
    exists|fuel: nat|
        rel_walk(db.rel_data(), v, None, vertex_at(db.vert_data(), v).vertex.first_rel, fuel) is Some
}

/// The relationships of the ring of vertex `v`, in the order of the walk.
pub open spec fn ring_rels(db: DB, v: VertexId) -> Seq<Relationship> {
    let fuel = choose|fuel: nat|
        rel_walk(db.rel_data(), v, None, vertex_at(db.vert_data(), v).vertex.first_rel, fuel) is Some;
    rel_walk(db.rel_data(), v, None, vertex_at(db.vert_data(), v).vertex.first_rel, fuel).unwrap()
}

/// Once the walk has taken its first relationship `a`, each relationship it
/// returns is read in a state from which the walk returns that relationship
/// and everything after it.
proof fn lemma_rel_walk_suffix(
    rd: Seq<u8>,
    v: VertexId,
    a: RelationshipId,
    n: RelationshipId,
    fuel: nat,
    k: int,
)
    requires
        rel_walk(rd, v, Some(a), n, fuel) is Some,
        0 <= k < rel_walk(rd, v, Some(a), n, fuel).unwrap().len(),
    ensures
        exists|f2: nat|
            rel_walk(rd, v, Some(a), rel_walk(rd, v, Some(a), n, fuel).unwrap()[k].id, f2) == Some(
                rel_walk(rd, v, Some(a), n, fuel).unwrap().skip(k),
            ),
    decreases fuel,
{
    let rs = rel_walk(rd, v, Some(a), n, fuel).unwrap();
    let (item, s2, n2) = rel_step(rd, v, Some(a), n);
    assert(item is Some && fuel > 0);
    let rest = rel_walk(rd, v, s2, n2, (fuel - 1) as nat).unwrap();
    assert(rs == seq![item.unwrap()] + rest);
    if k == 0 {
        assert(rs[0].id == n);
        assert(rs.skip(0) =~= rs);
    } else {
        lemma_rel_walk_suffix(rd, v, a, n2, (fuel - 1) as nat, k - 1);
        assert(rest[k - 1] == rs[k]);
        assert(rest.skip(k - 1) =~= rs.skip(k));
    }
}

/// The walk over the ring of a vertex returns each relationship once: when
/// it ends, the relationships it returns have distinct ids.
pub proof fn lemma_ring_ids_distinct(db: DB, v: VertexId)
    requires
        ring_walk_ends(db, v),
    ensures
        forall|i: int, j: int|
            0 <= i < j < ring_rels(db, v).len() ==> (#[trigger] ring_rels(db, v)[i]).id != (
            #[trigger] ring_rels(db, v)[j]).id,
{
    let rd = db.rel_data();
    let first = vertex_at(db.vert_data(), v).vertex.first_rel;
    let fuel = choose|fuel: nat| rel_walk(rd, v, None, first, fuel) is Some;
    let rs = ring_rels(db, v);
    assert(rel_walk(rd, v, None, first, fuel) == Some(rs));
    if rs.len() > 0 {
        let (item, s2, n2) = rel_step(rd, v, None, first);
        assert(item is Some && fuel > 0 && s2 == Some(first));
        let f1 = (fuel - 1) as nat;
        let rest = rel_walk(rd, v, s2, n2, f1).unwrap();
        assert(rs == seq![item.unwrap()] + rest);
        assert(rs[0].id == first);
        assert forall|i: int, j: int|
            0 <= i < j < rs.len() implies (#[trigger] rs[i]).id != (#[trigger] rs[j]).id by {
            assert(rs[j] == rest[j - 1]);
            lemma_rel_walk_suffix(rd, v, first, n2, f1, j - 1);
            let fj = choose|f2: nat| #[trigger] rel_walk(rd, v, Some(first), rest[j - 1].id, f2) == Some(rest.skip(j - 1));
            if i == 0 {
                if rs[j].id == first {
                    assert(rel_step(rd, v, Some(first), first).0 is None);
                    assert(rest.skip(j - 1).len() > 0);
                }
            } else {
                assert(rs[i] == rest[i - 1]);
                lemma_rel_walk_suffix(rd, v, first, n2, f1, i - 1);
                let fi = choose|f2: nat| #[trigger] rel_walk(rd, v, Some(first), rest[i - 1].id, f2) == Some(rest.skip(i - 1));
                if rs[i].id == rs[j].id {
                    lemma_rel_walk_unique(rd, v, Some(first), rest[i - 1].id, fi, fj);
                    assert(rest.skip(i - 1).len() != rest.skip(j - 1).len());
                }
            }
        }
    }
}

/// The state of the walk after `k` steps from (`start`, `next`).
pub open spec fn rel_state_after(
    rd: Seq<u8>,
    v: VertexId,
    start: Option<RelationshipId>,
    next: RelationshipId,
    k: nat,
) -> (Option<RelationshipId>, RelationshipId)
    decreases k,
{
    if k == 0 {
        (start, next)
    } else {
        let (_, s2, n2) = rel_step(rd, v, start, next);
        rel_state_after(rd, v, s2, n2, (k - 1) as nat)
    }
}

/// What step `k` of a walk that ends returns: the `k`-th relationship of
/// the walk, and nothing once they are all returned; every step up to then
/// runs to completion.
proof fn lemma_rel_walk_steps(
    rd: Seq<u8>,
    v: VertexId,
    start: Option<RelationshipId>,
    next: RelationshipId,
    fuel: nat,
)
    requires
        rel_walk(rd, v, start, next, fuel) is Some,
    ensures
        forall|k: nat|
            k <= rel_walk(rd, v, start, next, fuel).unwrap().len() ==> {
                let st = #[trigger] rel_state_after(rd, v, start, next, k);
                &&& rel_step_ok(rd, st.0, st.1)
                &&& rel_step(rd, v, st.0, st.1).0 == if k < rel_walk(rd, v, start, next, fuel).unwrap().len() {
                    Some(rel_walk(rd, v, start, next, fuel).unwrap()[k as int])
                } else {
                    None
                }
            },
    decreases fuel,
{
    let rs = rel_walk(rd, v, start, next, fuel).unwrap();
    let (item, s2, n2) = rel_step(rd, v, start, next);
    if item is Some {
        assert(fuel > 0);
        let rest = rel_walk(rd, v, s2, n2, (fuel - 1) as nat).unwrap();
        assert(rs == seq![item.unwrap()] + rest);
        lemma_rel_walk_steps(rd, v, s2, n2, (fuel - 1) as nat);
        assert forall|k: nat| k <= rs.len() implies {
            let st = #[trigger] rel_state_after(rd, v, start, next, k);
            &&& rel_step_ok(rd, st.0, st.1)
            &&& rel_step(rd, v, st.0, st.1).0 == if k < rs.len() {
                Some(rs[k as int])
            } else {
                None
            }
        } by {
            if k > 0 {
                let k1 = (k - 1) as nat;
                assert(rel_state_after(rd, v, start, next, k) == rel_state_after(rd, v, s2, n2, k1));
                if k < rs.len() {
                    assert(rs[k as int] == rest[k1 as int]);
                }
            }
        }
    } else {
        assert(rs.len() == 0);
        assert(rel_state_after(rd, v, start, next, 0) == (start, next));
    }
}

/// The relationship iterator of a vertex whose ring walk ends returns the
/// ring in order and then stops: from the state that `rel_iter` starts in,
/// step `k` returns the `k`-th relationship of `ring_rels` for each `k`
/// below its length, and step `ring_rels(db, v).len()` returns nothing.
pub proof fn lemma_rel_iter_order(db: DB, v: VertexId)
    requires
        ring_walk_ends(db, v),
    ensures
        forall|k: nat|
            k <= ring_rels(db, v).len() ==> {
                let st = #[trigger] rel_state_after(db.rel_data(), v, None, vertex_at(db.vert_data(), v).vertex.first_rel, k);
                &&& rel_step_ok(db.rel_data(), st.0, st.1)
                &&& rel_step(db.rel_data(), v, st.0, st.1).0 == if k < ring_rels(db, v).len() {
                    Some(ring_rels(db, v)[k as int])
                } else {
                    None
                }
            },
{
    let first = vertex_at(db.vert_data(), v).vertex.first_rel;
    let fuel = choose|fuel: nat| rel_walk(db.rel_data(), v, None, first, fuel) is Some;
    lemma_rel_walk_steps(db.rel_data(), v, None, first, fuel);
}

/// An iterator over the relationships of one vertex.
pub struct RelationshipIterator<'a> {
    db_handle: &'a DB,
    searched_vertex_id: VertexId,
    start_rel_id: Option<RelationshipId>,
    next_rel_id: RelationshipId,
    direction: IterDirection,
}

impl<'a> RelationshipIterator<'a> {
    pub closed spec fn db(self) -> DB {
        *self.db_handle
    }

    pub closed spec fn vertex(self) -> VertexId {
        self.searched_vertex_id
    }

    /// The relationship where the walk began, once it has begun.
    pub closed spec fn start(self) -> Option<RelationshipId> {
        self.start_rel_id
    }

    /// The relationship the next step reads.
    pub closed spec fn next_id(self) -> RelationshipId {
        self.next_rel_id
    }

    /// An iterator over the ring of vertex `searched_vertex_id`, whose record
    /// must lie inside the vertex file.
    pub fn new(db_handle: &'a DB, searched_vertex_id: VertexId) -> (r: Self)
        requires
            vertex_in(db_handle.vert_data(), searched_vertex_id),
        ensures
            r.db() == *db_handle,
            r.vertex() == searched_vertex_id,
            r.start() is None,
            r.next_id() == vertex_at(db_handle.vert_data(), searched_vertex_id).vertex.first_rel,
    {
        let node = db_handle.get_node(searched_vertex_id).unwrap();
        RelationshipIterator {
            db_handle,
            searched_vertex_id,
            start_rel_id: None,
            next_rel_id: node.vertex.first_rel,
            direction: IterDirection::Forward,
        }
    }

    /// One step of the walk.
    pub fn next(&mut self) -> (r: Option<Relationship>)
        requires
            rel_step_ok(old(self).db().rel_data(), old(self).start(), old(self).next_id()),
        ensures
            final(self).db() == old(self).db(),
            final(self).vertex() == old(self).vertex(),
            (r, final(self).start(), final(self).next_id()) == rel_step(
                old(self).db().rel_data(),
                old(self).vertex(),
                old(self).start(),
                old(self).next_id(),
            ),
    {
        if self.start_rel_id.is_none() {
            self.start_rel_id = Some(self.next_rel_id);
        } else if self.next_rel_id == self.start_rel_id.unwrap() {
            return None;
        }
        if self.next_rel_id == RELATIONSHIP_NULL_ID {
            return None;
        }
        match self.db_handle.db.f_rel.read_relationship(self.next_rel_id) {
            Some(next_rel) => {
                if next_rel.rel.vertex_refs.start_vertex == self.searched_vertex_id {
                    self.next_rel_id = next_rel.rel.vertex_refs.start_next;
                } else if next_rel.rel.vertex_refs.end_vertex == self.searched_vertex_id {
                    self.next_rel_id = next_rel.rel.vertex_refs.end_next;
                } else {
                    return None;
                }
                Some(next_rel)
            },
            None => None,
        }
    }

    /// Walking backwards is only defined once the walk has come back to its
    /// first relationship, and then returns nothing.
    pub fn next_back(&mut self) -> (r: Option<Relationship>)
        requires
            old(self).start() == Some(old(self).next_id()),
        ensures
            r is None,
            final(self).db() == old(self).db(),
            final(self).vertex() == old(self).vertex(),
            final(self).start() == old(self).start(),
            final(self).next_id() == old(self).next_id(),
    {
        if self.start_rel_id.is_none() {
            self.start_rel_id = Some(self.next_rel_id);
        } else if self.next_rel_id == self.start_rel_id.unwrap() {
            return None;
        }
        None
    }

    /// Collects every relationship that the walk returns.
    pub(crate) fn collect_all(self) -> (r: Vec<Relationship>)
        requires
            exists|fuel: nat|
                rel_walk(self.db().rel_data(), self.vertex(), self.start(), self.next_id(), fuel) is Some,
        ensures
            forall|fuel: nat|
                rel_walk(self.db().rel_data(), self.vertex(), self.start(), self.next_id(), fuel) is Some
                    ==> rel_walk(self.db().rel_data(), self.vertex(), self.start(), self.next_id(), fuel)
                    == Some(r@),
    {
        let mut it = self;
        let ghost rd = it.db().rel_data();
        let ghost v = it.vertex();
        let ghost fuel0 = choose|fuel: nat|
            rel_walk(rd, v, self.start(), self.next_id(), fuel) is Some;
        let ghost total = rel_walk(rd, v, self.start(), self.next_id(), fuel0).unwrap();
        let ghost mut fuel = fuel0;
        let mut out: Vec<Relationship> = Vec::new();
        loop
            invariant
                it.db().rel_data() == rd,
                it.vertex() == v,
                rel_walk(rd, v, it.start(), it.next_id(), fuel) is Some,
                out@ + rel_walk(rd, v, it.start(), it.next_id(), fuel).unwrap() == total,
                rel_walk(rd, v, self.start(), self.next_id(), fuel0) == Some(total),
            ensures
                out@ == total,
            decreases fuel,
        {
            let ghost s0 = it.start();
            let ghost n0 = it.next_id();
            let ghost rest = rel_walk(rd, v, s0, n0, fuel).unwrap();
            match it.next() {
                Some(r) => {
                    let ghost rest2 = rel_walk(rd, v, it.start(), it.next_id(), (fuel - 1) as nat).unwrap();
                    assert(rest == seq![r] + rest2);
                    out.push(r);
                    assert(out@ + rest2 == total) by {
                        assert(out@ + rest2 =~= (out@.drop_last() + seq![r]) + rest2);
                    }
                    proof {
                        fuel = (fuel - 1) as nat;
                    }
                },
                None => {
                    assert(rest == Seq::<Relationship>::empty());
                    assert(out@ == total) by {
                        assert(out@ + rest =~= out@);
                    }
                    break;
                },
            }
        }
        assert forall|fuel: nat|
            rel_walk(rd, v, self.start(), self.next_id(), fuel) is Some implies rel_walk(
                rd,
                v,
                self.start(),
                self.next_id(),
                fuel,
            ) == Some(out@) by {
            lemma_rel_walk_unique(rd, v, self.start(), self.next_id(), fuel, fuel0);
        }
        out
    }
}

} // verus!
