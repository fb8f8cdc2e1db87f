//! The fixed users and databases that the server knows.
use vstd::prelude::*;
use crate::encoding;
use crate::server::utils::types::Salt;

verus! {

/// The known users: name, password and salt.
pub open spec fn spec_user_table() -> Seq<(Seq<char>, Seq<char>, Salt)> {
    seq![
        ("Delcos"@, "password1"@, 12345u16),
        ("Seja"@, "password2"@, 23456u16),
        ("Edos"@, "password"@, 34567u16),
    ]
}

/// The known databases.
pub open spec fn spec_db_table() -> Seq<Seq<char>> {
    seq!["test"@, "products"@]
}

/// The known users: name, password and salt.
pub fn mocked_user_credentials() -> (r: Vec<(&'static str, &'static str, Salt)>)
    ensures
        r@.len() == spec_user_table().len(),
        forall|i: int|
            0 <= i < r@.len() ==> (#[trigger] r@[i]).0@ == spec_user_table()[i].0 && r@[i].1@
                == spec_user_table()[i].1 && r@[i].2 == spec_user_table()[i].2,
{
    let mut v: Vec<(&'static str, &'static str, Salt)> = Vec::new();
    v.push(("Delcos", "password1", 12345));
    v.push(("Seja", "password2", 23456));
    v.push(("Edos", "password", 34567));
    v
}

/// The known databases.
pub fn mocked_existing_dbs() -> (r: Vec<&'static str>)
    ensures
        r@.len() == spec_db_table().len(),
        forall|i: int| 0 <= i < r@.len() ==> (#[trigger] r@[i])@ == spec_db_table()[i],
{
    let mut v: Vec<&'static str> = Vec::new();
    v.push("test");
    v.push("products");
    v
}

/// Number of entries of `names` equal to `name`.
pub open spec fn count_equal(names: Seq<Seq<char>>, name: Seq<char>) -> nat
    decreases names.len(),
{
    if names.len() == 0 {
        0
    } else {
        count_equal(names.drop_last(), name) + if names.last() == name {
            1nat
        } else {
            0nat
        }
    }
}

pub open spec fn user_names() -> Seq<Seq<char>> {
    spec_user_table().map_values(|u: (Seq<char>, Seq<char>, Salt)| u.0)
}

/// Whether exactly one known user has this name.
pub fn username_exists(username: &str) -> (r: bool)
    ensures
        r == (count_equal(user_names(), username@) == 1),
{
    let users = mocked_user_credentials();
    let n = users.len();
    let mut count: usize = 0;
    let mut i: usize = 0;
    while i < n
        invariant
            n == users@.len(),
            n == spec_user_table().len(),
            i <= n,
            count <= i,
            count == count_equal(user_names().take(i as int), username@),
            forall|k: int|
                0 <= k < users@.len() ==> (#[trigger] users@[k]).0@ == spec_user_table()[k].0,
        decreases n - i,
    {
        proof {
            assert(user_names().take(i + 1).drop_last() == user_names().take(i as int));
        }
        if encoding::str_eq(users[i].0, username) {
            count += 1;
        }
        i += 1;
    }
    proof {
        assert(user_names().take(n as int) == user_names());
    }
    count == 1
}

/// Whether exactly one known database has this name.
pub fn requested_db_exists(requested_db_name: &str) -> (r: bool)
    ensures
        r == (count_equal(spec_db_table(), requested_db_name@) == 1),
{
    let dbs = mocked_existing_dbs();
    let n = dbs.len();
    let mut count: usize = 0;
    let mut i: usize = 0;
    while i < n
        invariant
            n == dbs@.len(),
            n == spec_db_table().len(),
            i <= n,
            count <= i,
            count == count_equal(spec_db_table().take(i as int), requested_db_name@),
            forall|k: int| 0 <= k < dbs@.len() ==> (#[trigger] dbs@[k])@ == spec_db_table()[k],
        decreases n - i,
    {
        proof {
            assert(spec_db_table().take(i + 1).drop_last() == spec_db_table().take(i as int));
        }
        if encoding::str_eq(dbs[i], requested_db_name) {
            count += 1;
        }
        i += 1;
    }
    proof {
        assert(spec_db_table().take(n as int) == spec_db_table());
    }
    count == 1
}

} // verus!
