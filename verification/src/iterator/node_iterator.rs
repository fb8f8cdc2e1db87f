//! Reading the vertex file page by page.
//!
//! A page read decodes the vertex records that start in it, with ids counted
//! from the start of the page, and the iterator hands them out from the last
//! one back. The decoding of a page takes one byte past each record, so a
//! page can only be decoded when at most `494` of its bytes hold records:
//! the walk works on vertex files of at most that size.
use vstd::prelude::*;
use crate::constants::{START_VERTICES, VERTEX_PAGE_LENGTH};
use crate::db::db::DB;
use crate::io::read::{page_vertex, vertices_from_bytes};
use crate::objects::vertex::Vertex;

verus! {

/// The page buffer `buf` after reading the vertex file `data` at `pos`: the
/// bytes that the file holds from `pos` on replace the start of the buffer.
pub open spec fn page_read(buf: Seq<u8>, data: Seq<u8>, pos: int) -> Seq<u8> {
    Seq::new(
        buf.len(),
        |i: int|
            if pos + i < data.len() {
                data[pos + i]
            } else {
                buf[i]
            },
    )
}

/// The vertices decoded from the first `cap` bytes of a page, with ids
/// counted from the start of the page.
pub open spec fn page_vertices(buf: Seq<u8>, cap: int) -> Seq<Vertex> {
    Seq::new(((cap + 12) / 13) as nat, |k: int| page_vertex(buf, 0, 13 * k))
}

/// What `read_all_nodes` returns for a vertex file `data`: the vertices of
/// its single page, last one first.
pub open spec fn all_nodes(data: Seq<u8>) -> Seq<Vertex> {
    page_vertices(page_read(Seq::new(VERTEX_PAGE_LENGTH as nat, |i: int| 0u8), data, 0), data.len() as int).reverse()
}

/// An iterator over the vertices of the vertex file.
pub struct NodeIterator<'a> {
    db_handle: &'a DB,
    last_pos: u64,
    file_len: Option<u64>,
    buf: [u8; VERTEX_PAGE_LENGTH],
    current_nodes: Vec<Vertex>,
}

/// A vertex that is always kept.
pub fn empty_filter(_v: &&Vertex) -> (r: bool)
    ensures
        r,
{
    true
}

impl<'a> NodeIterator<'a> {
    pub closed spec fn db(self) -> DB {
        *self.db_handle
    }

    pub closed spec fn last_pos(self) -> u64 {
        self.last_pos
    }

    pub closed spec fn file_len(self) -> Option<u64> {
        self.file_len
    }

    pub closed spec fn buf(self) -> Seq<u8> {
        self.buf@
    }

    /// The vertices of the last page read that are still to be handed out;
    /// the last one comes next.
    pub closed spec fn current(self) -> Seq<Vertex> {
        self.current_nodes@
    }

    /// An iterator at the start of the vertex file, with an empty buffer.
    /// A predicate may be given for the vertices, but no vertex is ever
    /// held back by it: every stored vertex is handed out.
    pub fn new<F: FnMut(&&Vertex) -> bool + Copy>(db_handle: &'a DB, predicate: Option<F>) -> (r: Self)
        ensures
            r.db() == *db_handle,
            r.last_pos() == START_VERTICES,
            r.file_len() is None,
            r.buf() == Seq::new(VERTEX_PAGE_LENGTH as nat, |i: int| 0u8),
            r.current() == Seq::<Vertex>::empty(),
    {
        let buf = [0u8; VERTEX_PAGE_LENGTH];
        assert(buf@ =~= Seq::new(VERTEX_PAGE_LENGTH as nat, |i: int| 0u8));
        NodeIterator {
            db_handle,
            last_pos: START_VERTICES as u64,
            file_len: None,
            buf,
            current_nodes: Vec::new(),
        }
    }

    /// The length of the vertex file as the iterator sees it.
    pub open spec fn seen_len(self) -> u64 {
        match self.file_len() {
            Some(l) => l,
            None => self.db().vert_data().len() as u64,
        }
    }

    /// The next call has vertices left to hand out.
    pub open spec fn has_current(self) -> bool {
        self.current().len() > 0
    }

    /// The next call finds the end of the file.
    pub open spec fn at_end(self) -> bool {
        self.file_len() is Some && self.last_pos() >= self.file_len().unwrap()
    }

    /// The next call runs to completion: when it has to read a page, that
    /// page is the last one, and at most `494` of its bytes hold records.
    pub open spec fn next_ok(self) -> bool {
        self.has_current() || self.at_end() || {
            &&& self.db().vert_data().len() <= u64::MAX
            &&& self.seen_len() + VERTEX_PAGE_LENGTH <= u64::MAX
            &&& self.last_pos() <= self.seen_len()
            &&& self.last_pos() + VERTEX_PAGE_LENGTH > self.seen_len()
            &&& self.seen_len() - self.last_pos() <= 494
        }
    }

    /// Hands out the next vertex, reading the next page when the vertices
    /// of the last one are used up.
    pub fn next(&mut self) -> (r: Option<Vertex>)
        requires
            old(self).next_ok(),
        ensures
            final(self).db() == old(self).db(),
            old(self).has_current() ==> r == Some(old(self).current().last()),
            old(self).has_current() ==> final(self).current() == old(self).current().drop_last(),
            !old(self).has_current() && old(self).at_end() ==> r is None,
            !old(self).has_current() && old(self).at_end() ==> final(self).current() == old(self).current(),
            old(self).has_current() || old(self).at_end() ==> final(self).last_pos() == old(self).last_pos(),
            old(self).has_current() || old(self).at_end() ==> final(self).file_len() == old(self).file_len(),
            old(self).has_current() || old(self).at_end() ==> final(self).buf() == old(self).buf(),
            !old(self).has_current() && !old(self).at_end() ==> ({
                let buf = page_read(old(self).buf(), old(self).db().vert_data(), old(self).last_pos() as int);
                let cur = page_vertices(buf, old(self).seen_len() - old(self).last_pos());
                &&& final(self).buf() == buf
                &&& final(self).file_len() == Some(old(self).seen_len())
                &&& final(self).last_pos() == old(self).seen_len() + VERTEX_PAGE_LENGTH
                &&& cur.len() == 0 ==> r is None && final(self).current() == cur
                &&& cur.len() > 0 ==> r == Some(cur.last()) && final(self).current() == cur.drop_last()
            }),
    {
        if self.current_nodes.len() > 0 {
            return self.current_nodes.pop();
        } else if self.file_len.is_some() && self.last_pos >= self.file_len.unwrap() {
            return None;
        }
        if self.file_len.is_none() {
            self.file_len = Some(self.db_handle.db.f_vert.data.len() as u64);
        }
        let file_len = self.file_len.unwrap();
        let pos = self.last_pos;
        let cap = (file_len - pos) as usize;
        self.read_page(pos);
        match vertices_from_bytes(&self.buf, 0, cap) {
            Ok(vs) => {
                self.current_nodes = vs;
            },
            Err(_) => {
                return None;
            },
        }
        assert(self.current_nodes@ =~= page_vertices(self.buf@, cap as int));
        self.last_pos = file_len;
        self.last_pos = self.last_pos + VERTEX_PAGE_LENGTH as u64;
        self.current_nodes.pop()
    }

    /// Reads the vertex file at `pos` into the page buffer, as far as the
    /// file reaches.
    fn read_page(&mut self, pos: u64)
        ensures
            final(self).buf() == page_read(old(self).buf(), old(self).db().vert_data(), pos as int),
            final(self).db() == old(self).db(),
            final(self).last_pos() == old(self).last_pos(),
            final(self).file_len() == old(self).file_len(),
            final(self).current() == old(self).current(),
    {
        let data = &self.db_handle.db.f_vert.data;
        let len = data.len();
        let mut i: usize = 0;
        while i < VERTEX_PAGE_LENGTH
            invariant
                self.db() == old(self).db(),
                data@ == self.db().vert_data(),
                len == data@.len(),
                self.last_pos() == old(self).last_pos(),
                self.file_len() == old(self).file_len(),
                self.current() == old(self).current(),
                i <= VERTEX_PAGE_LENGTH,
                self.buf@.len() == VERTEX_PAGE_LENGTH,
                forall|k: int|
                    0 <= k < VERTEX_PAGE_LENGTH ==> self.buf@[k] == (if k < i && pos + k < len {
                        data@[pos + k]
                    } else {
                        old(self).buf@[k]
                    }),
            decreases VERTEX_PAGE_LENGTH - i,
        {
            if pos < len as u64 && (i as u64) < len as u64 - pos {
                let b = data[pos as usize + i];
                self.buf[i] = b;
            }
            i += 1;
        }
        assert(self.buf@ =~= page_read(old(self).buf(), old(self).db().vert_data(), pos as int));
    }
}

} // verus!
