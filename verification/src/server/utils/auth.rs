//! Salts and salted password hashes of the known users.
use vstd::prelude::*;
use sha2::{Digest, Sha256};
use crate::encoding;
use crate::server::utils::errors::{AuthError, ServerAcceptConnError};
use crate::server::utils::mocks::{
    mocked_user_credentials, requested_db_exists, spec_user_table, user_names, username_exists,
    count_equal, spec_db_table,
};
use crate::server::utils::types::{PasswordHash, Salt};

verus! {

/// The SHA-256 digest of `data`.
pub uninterp spec fn spec_sha256(data: Seq<u8>) -> Seq<u8>;

/// Calls `Sha256::digest` of the `sha2` crate on `data` and returns the
/// 32-byte digest, named `spec_sha256(data)`.
#[verifier::external_body]
fn sha256_digest(data: &[u8]) -> (r: [u8; 32])
    ensures
        r@ == spec_sha256(data@),
{
    Sha256::digest(data).into()
}

/// The bytes that are hashed for a password and a salt: the password
/// followed by the salt in decimal.
pub open spec fn hash_input(password: Seq<char>, salt: Salt) -> Seq<u8> {
    encoding::utf8(password) + encoding::decimal_ascii(salt as nat)
}

/// The number that a string of decimal digits, most significant first,
/// stands for.
pub open spec fn digits_value(d: Seq<u8>) -> int
    decreases d.len(),
{
    if d.len() == 0 {
        0
    } else {
        digits_value(d.drop_last()) * 10 + (d.last() - 48)
    }
}

/// The decimal digits of `n`: at least one ASCII digit, no leading zero
/// unless `n` is zero, standing for `n`.
proof fn lemma_decimal_digits(n: nat)
    ensures
        encoding::decimal_ascii(n).len() >= 1,
        forall|i: int| 0 <= i < encoding::decimal_ascii(n).len() ==> 48 <= #[trigger] encoding::decimal_ascii(n)[i] <= 57,
        encoding::decimal_ascii(n)[0] == 48 ==> n == 0,
        digits_value(encoding::decimal_ascii(n)) == n,
    decreases n,
{
    let d = encoding::decimal_ascii(n);
    if n >= 10 {
        lemma_decimal_digits(n / 10);
        let h = encoding::decimal_ascii(n / 10);
        assert(d == h + seq![(48 + n % 10) as u8]);
        assert(d.drop_last() =~= h);
        assert forall|i: int| 0 <= i < d.len() implies 48 <= #[trigger] d[i] <= 57 by {
            if i < h.len() {
                assert(d[i] == h[i]);
            }
        }
        assert(d[0] == h[0]);
        assert(d.last() == 48 + n % 10);
        assert(digits_value(d) == digits_value(h) * 10 + (d.last() - 48));
        assert((n / 10) * 10 + n % 10 == n);
    } else {
        assert(d.drop_last() =~= Seq::<u8>::empty());
        assert(d.last() == 48 + n);
        assert(digits_value(d) == digits_value(Seq::<u8>::empty()) * 10 + (d.last() - 48));
    }
}

/// The bytes a password hash is computed over are the UTF-8 bytes of the
/// password immediately followed by the salt written in decimal: after the
/// password come only ASCII digits, at least one, without a leading zero
/// unless the salt is zero, and they stand for the salt.
pub proof fn lemma_hash_input_layout(password: Seq<char>, salt: Salt)
    ensures
        ({
            let b = hash_input(password, salt);
            let n = encoding::utf8(password).len() as int;
            &&& b.subrange(0, n) == encoding::utf8(password)
            &&& b.len() > n
            &&& forall|i: int| n <= i < b.len() ==> 48 <= #[trigger] b[i] <= 57
            &&& (b[n] == 48 ==> salt == 0)
            &&& digits_value(b.subrange(n, b.len() as int)) == salt
        }),
{
    let b = hash_input(password, salt);
    let p = encoding::utf8(password);
    let d = encoding::decimal_ascii(salt as nat);
    lemma_decimal_digits(salt as nat);
    assert(b.subrange(0, p.len() as int) =~= p);
    assert(b.subrange(p.len() as int, b.len() as int) =~= d);
    assert forall|i: int| p.len() <= i < b.len() implies 48 <= #[trigger] b[i] <= 57 by {
        assert(b[i] == d[i - p.len()]);
    }
    assert(b[p.len() as int] == d[0]);
}

/// SHA-256 of the UTF-8 bytes of the password immediately followed by the
/// ASCII decimal digits of the salt.
pub fn hash_password(password: &str, salt: Salt) -> (r: PasswordHash)
    ensures
        r@ == spec_sha256(hash_input(password@, salt)),
        r@ == spec_sha256(encoding::utf8(password@) + encoding::decimal_ascii(salt as nat)),
{
    let mut data = encoding::str_bytes(password);
    encoding::push_decimal(&mut data, salt as u64);
    sha256_digest(data.as_slice())
}

/// Index of the first entry of `names` equal to `name`.
pub open spec fn first_index(names: Seq<Seq<char>>, name: Seq<char>) -> Option<int>
    decreases names.len(),
{
    if names.len() == 0 {
        None
    } else if names[0] == name {
        Some(0)
    } else {
        match first_index(names.drop_first(), name) {
            Some(i) => Some(i + 1),
            None => None,
        }
    }
}

proof fn lemma_first_index_found(names: Seq<Seq<char>>, name: Seq<char>, i: int)
    requires
        0 <= i < names.len(),
        names[i] == name,
        forall|k: int| 0 <= k < i ==> names[k] != name,
    ensures
        first_index(names, name) == Some(i),
    decreases i,
{
    if i > 0 {
        let rest = names.drop_first();
        assert forall|k: int| 0 <= k < i - 1 implies rest[k] != name by {
            assert(rest[k] == names[k + 1]);
        }
        lemma_first_index_found(rest, name, i - 1);
    }
}

proof fn lemma_first_index_absent(names: Seq<Seq<char>>, name: Seq<char>)
    requires
        forall|k: int| 0 <= k < names.len() ==> names[k] != name,
    ensures
        first_index(names, name) is None,
    decreases names.len(),
{
    if names.len() > 0 {
        let rest = names.drop_first();
        assert forall|k: int| 0 <= k < rest.len() implies rest[k] != name by {
            assert(rest[k] == names[k + 1]);
        }
        lemma_first_index_absent(rest, name);
    }
}

/// The salt stored for `username`.
pub fn get_salt_for_username(username: &str) -> (r: Result<Salt, AuthError>)
    ensures
        match first_index(user_names(), username@) {
            Some(i) => r == Ok::<Salt, AuthError>(spec_user_table()[i].2),
            None => r matches Err(AuthError::UnknownUser { name }) && name@ == username@,
        },
{
    let users = mocked_user_credentials();
    let n = users.len();
    let mut i: usize = 0;
    while i < n
        invariant
            n == users@.len(),
            n == spec_user_table().len(),
            i <= n,
            forall|k: int| 0 <= k < i ==> user_names()[k] != username@,
            forall|k: int|
                0 <= k < users@.len() ==> (#[trigger] users@[k]).0@ == spec_user_table()[k].0
                    && users@[k].1@ == spec_user_table()[k].1 && users@[k].2
                    == spec_user_table()[k].2,
        decreases n - i,
    {
        if encoding::str_eq(users[i].0, username) {
            proof {
                lemma_first_index_found(user_names(), username@, i as int);
            }
            return Ok(users[i].2);
        }
        i += 1;
    }
    proof {
        lemma_first_index_absent(user_names(), username@);
    }
    Err(AuthError::UnknownUser { name: username.to_owned() })
}

/// The salted hash of the stored password of `username`.
pub fn get_users_password_hash(username: &str) -> (r: Result<PasswordHash, AuthError>)
    ensures
        match first_index(user_names(), username@) {
            Some(i) => r matches Ok(h) && h@ == spec_sha256(
                hash_input(spec_user_table()[i].1, spec_user_table()[i].2),
            ),
            None => r matches Err(AuthError::UnknownUser { name }) && name@ == username@,
        },
{
    let users = mocked_user_credentials();
    let n = users.len();
    let mut i: usize = 0;
    while i < n
        invariant
            n == users@.len(),
            n == spec_user_table().len(),
            i <= n,
            forall|k: int| 0 <= k < i ==> user_names()[k] != username@,
            forall|k: int|
                0 <= k < users@.len() ==> (#[trigger] users@[k]).0@ == spec_user_table()[k].0
                    && users@[k].1@ == spec_user_table()[k].1 && users@[k].2
                    == spec_user_table()[k].2,
        decreases n - i,
    {
        if encoding::str_eq(users[i].0, username) {
            proof {
                lemma_first_index_found(user_names(), username@, i as int);
            }
            return Ok(hash_password(users[i].1, users[i].2));
        }
        i += 1;
    }
    proof {
        lemma_first_index_absent(user_names(), username@);
    }
    Err(AuthError::UnknownUser { name: username.to_owned() })
}

/// Whether two hashes are equal.
fn hash_eq(a: &PasswordHash, b: &PasswordHash) -> (r: bool)
    ensures
        r == (a@ == b@),
{
    let mut i: usize = 0;
    while i < 32
        invariant
            i <= 32,
            a@.len() == 32,
            b@.len() == 32,
            forall|j: int| 0 <= j < i ==> a@[j] == b@[j],
        decreases 32 - i,
    {
        if a[i] != b[i] {
            return false;
        }
        i += 1;
    }
    assert(a@ == b@);
    true
}

/// Accepts the hash exactly when it is the stored salted hash of the user.
pub fn check_password(username: &str, hashed_password: PasswordHash) -> (r: Result<(), AuthError>)
    ensures
        match first_index(user_names(), username@) {
            Some(i) => if hashed_password@ == spec_sha256(
                hash_input(spec_user_table()[i].1, spec_user_table()[i].2),
            ) {
                r is Ok
            } else {
                r matches Err(AuthError::InvalidPassword)
            },
            None => r matches Err(AuthError::UnknownUser { name }) && name@ == username@,
        },
{
    let pw_hash = match get_users_password_hash(username) {
        Ok(h) => h,
        Err(e) => {
            return Err(e);
        },
    };
    if !hash_eq(&pw_hash, &hashed_password) {
        return Err(AuthError::InvalidPassword);
    }
    Ok(())
}

/// Refuses an unknown database first, then an unknown user.
pub fn check_requested_credentials(username: &str, requested_db_name: &str) -> (r: Result<
    (),
    ServerAcceptConnError,
>)
    ensures
        count_equal(spec_db_table(), requested_db_name@) != 1 ==> (r matches Err(
            ServerAcceptConnError::NonExistingDb(n),
        ) && n@ == requested_db_name@),
        count_equal(spec_db_table(), requested_db_name@) == 1 && count_equal(
            user_names(),
            username@,
        ) != 1 ==> (r matches Err(
            ServerAcceptConnError::AuthenticationFailure(AuthError::UnknownUser { name }),
        ) && name@ == username@),
        count_equal(spec_db_table(), requested_db_name@) == 1 && count_equal(
            user_names(),
            username@,
        ) == 1 ==> r is Ok,
{
    if !requested_db_exists(requested_db_name) {
        return Err(ServerAcceptConnError::NonExistingDb(requested_db_name.to_owned()));
    }
    if !username_exists(username) {
        return Err(
            ServerAcceptConnError::AuthenticationFailure(
                AuthError::UnknownUser { name: username.to_owned() },
            ),
        );
    }
    Ok(())
}

} // verus!
