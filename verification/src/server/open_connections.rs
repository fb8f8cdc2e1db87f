//! The list of connections that passed authentication.
use vstd::prelude::*;
use crate::base_types::ConnectionId;
use crate::encoding;

verus! {

/// A connection of an authenticated user.
#[derive(Debug)]
pub struct ConnectionInfo {
    pub username: String,
    pub conn_id: ConnectionId,
}

impl ConnectionInfo {
    pub open spec fn spec_view(&self) -> (Seq<char>, ConnectionId) {
        (self.username@, self.conn_id)
    }
}

/// The open connections, in the order in which they were added.
#[derive(Debug)]
pub struct OpenConnections {
    pub conns: Vec<ConnectionInfo>,
}

/// Model of a list of connections.
pub open spec fn conns_view(v: Seq<ConnectionInfo>) -> Seq<(Seq<char>, ConnectionId)> {
    v.map_values(|c: ConnectionInfo| c.spec_view())
}

proof fn lemma_conns_view_push(s: Seq<ConnectionInfo>, x: ConnectionInfo)
    ensures
        conns_view(s.push(x)) == conns_view(s).push(x.spec_view()),
{
    assert(conns_view(s.push(x)) =~= conns_view(s).push(x.spec_view()));
}

proof fn lemma_conns_view_remove(s: Seq<ConnectionInfo>, i: int)
    requires
        0 <= i < s.len(),
    ensures
        conns_view(s.remove(i)) == conns_view(s).remove(i),
{
    assert(conns_view(s.remove(i)) =~= conns_view(s).remove(i));
}

/// Index of the first connection with this id.
pub open spec fn first_with_id(v: Seq<(Seq<char>, ConnectionId)>, id: ConnectionId) -> Option<int>
    decreases v.len(),
{
    if v.len() == 0 {
        None
    } else if v[0].1 == id {
        Some(0)
    } else {
        match first_with_id(v.drop_first(), id) {
            Some(i) => Some(i + 1),
            None => None,
        }
    }
}

proof fn lemma_first_with_id_found(v: Seq<(Seq<char>, ConnectionId)>, id: ConnectionId, i: int)
    requires
        0 <= i < v.len(),
        v[i].1 == id,
        forall|k: int| 0 <= k < i ==> v[k].1 != id,
    ensures
        first_with_id(v, id) == Some(i),
    decreases i,
{
    if i > 0 {
        let rest = v.drop_first();
        assert forall|k: int| 0 <= k < i - 1 implies rest[k].1 != id by {
            assert(rest[k] == v[k + 1]);
        }
        lemma_first_with_id_found(rest, id, i - 1);
    }
}

proof fn lemma_first_with_id_absent(v: Seq<(Seq<char>, ConnectionId)>, id: ConnectionId)
    requires
        forall|k: int| 0 <= k < v.len() ==> v[k].1 != id,
    ensures
        first_with_id(v, id) is None,
    decreases v.len(),
{
    if v.len() > 0 {
        let rest = v.drop_first();
        assert forall|k: int| 0 <= k < rest.len() implies rest[k].1 != id by {
            assert(rest[k] == v[k + 1]);
        }
        lemma_first_with_id_absent(rest, id);
    }
}

impl OpenConnections {
    pub open spec fn spec_view(&self) -> Seq<(Seq<char>, ConnectionId)> {
        conns_view(self.conns@)
    }

    pub fn new() -> (r: Self)
        ensures
            r.spec_view() == Seq::<(Seq<char>, ConnectionId)>::empty(),
    {
        OpenConnections { conns: Vec::new() }
    }

    /// A copy of the list.
    pub fn clone(&self) -> (r: Self)
        ensures
            r.spec_view() == self.spec_view(),
    {
        let mut conns: Vec<ConnectionInfo> = Vec::new();
        let n = self.conns.len();
        let mut i: usize = 0;
        while i < n
            invariant
                n == self.conns@.len(),
                i <= n,
                conns_view(conns@) == conns_view(self.conns@).take(i as int),
            decreases n - i,
        {
            let c = &self.conns[i];
            let ghost before = conns@;
            let d = ConnectionInfo { username: c.username.clone(), conn_id: c.conn_id };
            conns.push(d);
            proof {
                lemma_conns_view_push(before, d);
                assert(conns_view(self.conns@).take(i + 1) == conns_view(self.conns@).take(
                    i as int,
                ).push(conns_view(self.conns@)[i as int]));
            }
            i += 1;
        }
        proof {
            assert(conns_view(self.conns@).take(n as int) == conns_view(self.conns@));
        }
        OpenConnections { conns }
    }

    /// Adds a connection at the end.
    pub fn push_info(&mut self, info: ConnectionInfo)
        ensures
            final(self).spec_view() == old(self).spec_view().push(info.spec_view()),
    {
        self.conns.push(info);
        proof {
            assert(conns_view(self.conns@) == conns_view(old(self).conns@).push(info.spec_view()));
        }
    }

    /// Removes and returns the first connection with this id.
    pub fn remove_by_id(&mut self, id: ConnectionId) -> (r: Option<ConnectionInfo>)
        ensures
            match first_with_id(old(self).spec_view(), id) {
                Some(i) => r matches Some(c) && c.spec_view() == old(self).spec_view()[i]
                    && final(self).spec_view() == old(self).spec_view().remove(i),
                None => r is None && final(self).spec_view() == old(self).spec_view(),
            },
    {
        let ghost v = self.spec_view();
        let n = self.conns.len();
        let mut i: usize = 0;
        while i < n
            invariant
                n == self.conns@.len(),
                v == conns_view(self.conns@),
                v == old(self).spec_view(),
                i <= n,
                forall|k: int| 0 <= k < i ==> v[k].1 != id,
            decreases n - i,
        {
            if self.conns[i].conn_id == id {
                proof {
                    lemma_first_with_id_found(v, id, i as int);
                }
                let ghost before = self.conns@;
                let c = self.conns.remove(i);
                proof {
                    lemma_conns_view_remove(before, i as int);
                    assert(c.spec_view() == conns_view(before)[i as int]);
                    assert(first_with_id(v, id) == Some(i as int));
                    assert(conns_view(self.conns@) == v.remove(i as int));
                    assert(c.spec_view() == v[i as int]);
                }
                return Some(c);
            }
            i += 1;
        }
        proof {
            lemma_first_with_id_absent(v, id);
        }
        None
    }

    /// Keeps only the connections whose id differs from `id`.
    pub fn retain_other_ids(&mut self, id: ConnectionId)
        ensures
            final(self).spec_view() == without_id(old(self).spec_view(), id),
    {
        let ghost v = self.spec_view();
        let ghost pred = id_differs(id);
        let mut kept: Vec<ConnectionInfo> = Vec::new();
        let n = self.conns.len();
        let mut i: usize = 0;
        while i < n
            invariant
                n == self.conns@.len(),
                v == conns_view(self.conns@),
                i <= n,
                conns_view(kept@) == v.take(i as int).filter(pred),
                v == old(self).spec_view(),
                pred == id_differs(id),
            decreases n - i,
        {
            let c = &self.conns[i];
            proof {
                assert(v.take(i + 1) == v.take(i as int).push(v[i as int]));
                v.take(i as int).lemma_filter_push(v[i as int], pred);
            }
            assert(v[i as int] == self.conns@[i as int].spec_view());
            assert(pred(v[i as int]) == (c.conn_id != id));
            if c.conn_id != id {
                let ghost before = kept@;
                let d = ConnectionInfo { username: c.username.clone(), conn_id: c.conn_id };
                kept.push(d);
                proof {
                    lemma_conns_view_push(before, d);
                }
            }
            i += 1;
        }
        assert(v.take(n as int) == v);
        assert(without_id(v, id) == v.filter(pred));
        self.conns = kept;
    }

    /// Whether a user has a connection, and its id (0 when there is none).
    pub fn contains_username(&self, username: &str) -> (r: (bool, ConnectionId))
        requires
            count_user(self.spec_view(), username@) <= 1,
        ensures
            count_user(self.spec_view(), username@) == 0 ==> r == (false, 0u64),
            count_user(self.spec_view(), username@) == 1 ==> r == (
                true,
                self.spec_view()[last_user(self.spec_view(), username@)].1,
            ),
    {
        let ghost v = self.spec_view();
        let n = self.conns.len();
        let mut found: bool = false;
        let mut found_id: ConnectionId = 0;
        let mut i: usize = 0;
        while i < n
            invariant
                n == self.conns@.len(),
                v == conns_view(self.conns@),
                i <= n,
                found == (count_user(v.take(i as int), username@) > 0),
                found ==> found_id == v[last_user(v.take(i as int), username@)].1,
                found ==> 0 <= last_user(v.take(i as int), username@) < i,
            decreases n - i,
        {
            assert(v.take(i + 1).drop_last() == v.take(i as int));
            if encoding::str_eq(self.conns[i].username.as_str(), username) {
                found = true;
                found_id = self.conns[i].conn_id;
            }
            i += 1;
        }
        assert(v.take(n as int) == v);
        if found {
            proof {
                lemma_last_user_unique(v, username@);
            }
            (true, found_id)
        } else {
            (false, 0)
        }
    }
}

/// Number of connections of a user.
pub open spec fn count_user(v: Seq<(Seq<char>, ConnectionId)>, name: Seq<char>) -> nat
    decreases v.len(),
{
    if v.len() == 0 {
        0
    } else {
        count_user(v.drop_last(), name) + if v.last().0 == name {
            1nat
        } else {
            0nat
        }
    }
}

/// Index of the last connection of a user (or -1).
pub open spec fn last_user(v: Seq<(Seq<char>, ConnectionId)>, name: Seq<char>) -> int
    decreases v.len(),
{
    if v.len() == 0 {
        -1
    } else if v.last().0 == name {
        v.len() - 1
    } else {
        last_user(v.drop_last(), name)
    }
}

proof fn lemma_last_user_unique(v: Seq<(Seq<char>, ConnectionId)>, name: Seq<char>)
    ensures
        count_user(v, name) > 0 ==> 0 <= last_user(v, name) < v.len(),
    decreases v.len(),
{
    if v.len() > 0 {
        lemma_last_user_unique(v.drop_last(), name);
    }
}

/// Adding a connection of a user who had none makes the user have exactly
/// that connection.
pub proof fn lemma_push_then_find(v: Seq<(Seq<char>, ConnectionId)>, name: Seq<char>, id: ConnectionId)
    requires
        count_user(v, name) == 0,
    ensures
        count_user(v.push((name, id)), name) == 1,
        v.push((name, id))[last_user(v.push((name, id)), name)].1 == id,
{
    assert(v.push((name, id)).drop_last() =~= v);
}

/// The connections whose id differs from `id`, in order.
pub open spec fn without_id(v: Seq<(Seq<char>, ConnectionId)>, id: ConnectionId) -> Seq<(Seq<char>, ConnectionId)> {
    v.filter(id_differs(id))
}

/// A connection's id differs from `id`.
pub open spec fn id_differs(id: ConnectionId) -> spec_fn((Seq<char>, ConnectionId)) -> bool {
    |c: (Seq<char>, ConnectionId)| c.1 != id
}

/// After keeping only the connections whose id differs from `id`, no
/// connection has that id.
pub proof fn lemma_retained_ids(v: Seq<(Seq<char>, ConnectionId)>, id: ConnectionId)
    ensures
        forall|k: int| 0 <= k < without_id(v, id).len() ==> (#[trigger] without_id(v, id)[k]).1 != id,
{
    let pred = id_differs(id);
    assert forall|k: int| 0 <= k < without_id(v, id).len() implies (#[trigger] without_id(v, id)[k]).1 != id by {
        v.lemma_filter_pred(pred, k);
    }
}

} // verus!
