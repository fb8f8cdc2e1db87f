//! A depth-first walk over the graph, one vertex at a time.
use vstd::prelude::*;
use crate::base_types::VertexId;
use crate::db::db::DB;
use crate::methods::{get_neighbors, neighbor_ids, ring_readable};
use crate::objects::vertex::vertex_in;

verus! {

/// Pops `stack` until its top has not been visited: that vertex and the rest
/// of the stack, or nothing when the stack runs out.
pub open spec fn dfs_pop(visited: Seq<VertexId>, stack: Seq<VertexId>) -> Option<(VertexId, Seq<VertexId>)>
    decreases stack.len(),
{
    if stack.len() == 0 {
        None
    } else if visited.contains(stack.last()) {
        dfs_pop(visited, stack.drop_last())
    } else {
        Some((stack.last(), stack.drop_last()))
    }
}

/// The neighbours of vertex `v` can be read: its ring, and every neighbour's
/// record.
pub open spec fn neighbors_readable(db: DB, v: VertexId) -> bool {
    &&& ring_readable(db, v)
    &&& forall|k: int|
        0 <= k < neighbor_ids(db, v).len() ==> vertex_in(
            db.vert_data(),
            #[trigger] neighbor_ids(db, v)[k],
        )
}

/// A depth-first walk: the vertices already returned and the vertices still
/// to be looked at, the next one on top.
pub struct DfsIterator<'a> {
    db_handle: &'a DB,
    visited: Vec<VertexId>,
    stack: Vec<VertexId>,
}

impl<'a> DfsIterator<'a> {
    pub closed spec fn db(self) -> DB {
        *self.db_handle
    }

    pub closed spec fn visited(self) -> Seq<VertexId> {
        self.visited@
    }

    pub closed spec fn stack(self) -> Seq<VertexId> {
        self.stack@
    }

    /// A walk that starts at `start_id`.
    pub fn new(db_handle: &'a DB, start_id: VertexId) -> (r: Self)
        ensures
            r.db() == *db_handle,
            r.visited() == Seq::<VertexId>::empty(),
            r.stack() == seq![start_id],
    {
        let mut stack: Vec<VertexId> = Vec::new();
        stack.push(start_id);
        DfsIterator { db_handle, visited: Vec::new(), stack }
    }

    /// Returns the next vertex of the walk that has not been returned yet,
    /// and puts its neighbours on the stack so that the first neighbour is
    /// looked at next.
    pub fn next(&mut self) -> (r: Option<VertexId>)
        requires
            dfs_pop(old(self).visited(), old(self).stack()) matches Some((n, _)) ==> neighbors_readable(
                old(self).db(),
                n,
            ),
        ensures
            final(self).db() == old(self).db(),
            dfs_pop(old(self).visited(), old(self).stack()) is None ==> r is None,
            dfs_pop(old(self).visited(), old(self).stack()) is None ==> final(self).visited() == old(
                self,
            ).visited(),
            dfs_pop(old(self).visited(), old(self).stack()) is None ==> final(self).stack()
                == Seq::<VertexId>::empty(),
            dfs_pop(old(self).visited(), old(self).stack()) matches Some((n, rest)) ==> r == Some(n)
                && final(self).visited() == old(self).visited().push(n) && final(self).stack() == rest
                + neighbor_ids(old(self).db(), n).reverse(),
    {
        loop
            invariant
                self.db() == old(self).db(),
                self.visited() == old(self).visited(),
                dfs_pop(self.visited(), self.stack()) == dfs_pop(old(self).visited(), old(self).stack()),
                dfs_pop(old(self).visited(), old(self).stack()) matches Some((n, _))
                    ==> neighbors_readable(old(self).db(), n),
            decreases self.stack().len(),
        {
            match self.stack.pop() {
                Some(node) => {
                    if crate::methods::contains_id(&self.visited, node) {
                        continue;
                    } else {
                        self.visited.push(node);
                    }
                    let neighbors = get_neighbors(self.db_handle, node);
                    let ghost base = self.stack@;
                    let ghost visited_now = self.visited@;
                    let mut k: usize = neighbors.len();
                    while k > 0
                        invariant
                            self.db() == old(self).db(),
                            self.visited@ == visited_now,
                            k <= neighbors@.len(),
                            neighbors@.len() == neighbor_ids(*self.db_handle, node).len(),
                            forall|j: int|
                                0 <= j < neighbors@.len() ==> (#[trigger] neighbors@[j]).id
                                    == neighbor_ids(*self.db_handle, node)[j],
                            self.stack@ == base + neighbor_ids(*self.db_handle, node).subrange(
                                k as int,
                                neighbors@.len() as int,
                            ).reverse(),
                        decreases k,
                    {
                        k -= 1;
                        self.stack.push(neighbors[k].id);
                        assert(neighbor_ids(*self.db_handle, node).subrange(
                            k as int,
                            neighbors@.len() as int,
                        ).reverse() =~= neighbor_ids(*self.db_handle, node).subrange(
                            k + 1,
                            neighbors@.len() as int,
                        ).reverse().push(neighbor_ids(*self.db_handle, node)[k as int]));
                    }
                    assert(neighbor_ids(*self.db_handle, node).subrange(
                        0,
                        neighbors@.len() as int,
                    ) =~= neighbor_ids(*self.db_handle, node));
                    return Some(node);
                },
                None => {
                    return None;
                },
            }
        }
    }
}

/// A depth-first walk from `start_id`.
pub fn dfs_iter(db_handle: &DB, start_id: VertexId) -> (r: DfsIterator)
    ensures
        r.db() == *db_handle,
        r.visited() == Seq::<VertexId>::empty(),
        r.stack() == seq![start_id],
{
    DfsIterator::new(db_handle, start_id)
}

} // verus!
