//! The credentials of the plain-text handshake: a client announces itself
//! with a text that holds `user=` and, after it, `password=`.
use vstd::prelude::*;
use vstd::string::*;
use crate::encoding::{str_chars, string_from_utf8_lossy};

verus! {

/// The first position at or after `i` where `pat` occurs in `s`.
pub open spec fn find_from(s: Seq<char>, pat: Seq<char>, i: int) -> Option<int>
    decreases s.len() + 1 - i,
{
    if i < 0 || i + pat.len() > s.len() {
        None
    } else if s.subrange(i, i + pat.len()) == pat {
        Some(i)
    } else {
        find_from(s, pat, i + 1)
    }
}

/// The first position where `pat` occurs in `s`.
pub open spec fn find_text(s: Seq<char>, pat: Seq<char>) -> Option<int> {
    find_from(s, pat, 0)
}

/// Whether `pat` occurs in `s` at `i`.
fn occurs_at(s: &Vec<char>, pat: &Vec<char>, i: usize) -> (r: bool)
    requires
        i + pat@.len() <= s@.len(),
    ensures
        r == (s@.subrange(i as int, i + pat@.len()) == pat@),
{
    let n = s.len();
    let mut k: usize = 0;
    while k < pat.len()
        invariant
            n == s@.len(),
            i + pat@.len() <= s@.len(),
            k <= pat@.len(),
            forall|j: int| 0 <= j < k ==> s@[i + j] == pat@[j],
        decreases pat@.len() - k,
    {
        if s[i + k] != pat[k] {
            assert(s@.subrange(i as int, i + pat@.len())[k as int] != pat@[k as int]);
            return false;
        }
        k += 1;
    }
    assert(s@.subrange(i as int, i + pat@.len()) =~= pat@);
    true
}

/// The first position where `pat` occurs in `s`.
fn find_chars(s: &Vec<char>, pat: &Vec<char>) -> (r: Option<usize>)
    ensures
        match find_text(s@, pat@) {
            Some(p) => r == Some(p as usize),
            None => r is None,
        },
{
    let n = s.len();
    let m = pat.len();
    if m > n {
        proof {
            lemma_find_from_in_range(s@, pat@, 0);
        }
        return None;
    }
    let mut i: usize = 0;
    while i <= n - m
        invariant
            n == s@.len(),
            m == pat@.len(),
            m <= n,
            i + pat@.len() <= s@.len() + 1,
            find_text(s@, pat@) == find_from(s@, pat@, i as int),
        decreases n + 1 - i,
    {
        if occurs_at(s, pat, i) {
            return Some(i);
        }
        if i == n - m {
            assert(find_from(s@, pat@, i + 1) is None);
            return None;
        }
        i += 1;
    }
    None
}

/// The user name and password of a handshake text: the text from the first
/// `user=` up to the first `password=`, and the text from there on (each
/// with its marker).
pub fn credentials(s: &str) -> (r: (String, String))
    requires
        find_text(s@, "user="@) is Some,
        find_text(s@, "password="@) is Some,
        find_text(s@, "user="@)->Some_0 <= find_text(s@, "password="@)->Some_0,
    ensures
        r.0@ == s@.subrange(find_text(s@, "user="@)->Some_0, find_text(s@, "password="@)->Some_0),
        r.1@ == s@.subrange(find_text(s@, "password="@)->Some_0, s@.len() as int),
{
    let chars = str_chars(s);
    let _n = chars.len();
    let user = str_chars("user=");
    let password = str_chars("password=");
    proof {
        lemma_find_from_in_range(s@, "user="@, 0);
        lemma_find_from_in_range(s@, "password="@, 0);
    }
    let i_username = find_chars(&chars, &user).unwrap();
    let i_password = find_chars(&chars, &password).unwrap();
    let username = s.substring_char(i_username, i_password).to_owned();
    let pw = s.substring_char(i_password, chars.len()).to_owned();
    (username, pw)
}

/// A position that `find_from` gives is a place where the pattern fits.
proof fn lemma_find_from_in_range(s: Seq<char>, pat: Seq<char>, i: int)
    ensures
        find_from(s, pat, i) matches Some(p) ==> i <= p && p + pat.len() <= s.len(),
    decreases s.len() + 1 - i,
{
    if !(i < 0 || i + pat.len() > s.len()) && s.subrange(i, i + pat.len()) != pat {
        lemma_find_from_in_range(s, pat, i + 1);
    }
}

/// The credentials of a handshake message read from the wire, decoded
/// with invalid UTF-8 replaced; `None` when the decoded text lacks a marker
/// or holds the password marker before the user marker.
pub fn read_credentials(buffer: &[u8]) -> (r: Option<(String, String)>)
    ensures
        ({
            let s = crate::encoding::lossy_utf8(buffer@);
            let u = find_text(s, "user="@);
            let p = find_text(s, "password="@);
            if u is Some && p is Some && u->Some_0 <= p->Some_0 {
                r matches Some(c) && c.0@ == s.subrange(u->Some_0, p->Some_0) && c.1@ == s.subrange(
                    p->Some_0,
                    s.len() as int,
                )
            } else {
                r is None
            }
        }),
{
    let s = string_from_utf8_lossy(buffer);
    let chars = str_chars(s.as_str());
    let _n = chars.len();
    let user = str_chars("user=");
    let password = str_chars("password=");
    proof {
        lemma_find_from_in_range(s@, "user="@, 0);
        lemma_find_from_in_range(s@, "password="@, 0);
    }
    match (find_chars(&chars, &user), find_chars(&chars, &password)) {
        (Some(u), Some(p)) => {
            if u <= p {
                Some(credentials(s.as_str()))
            } else {
                None
            }
        },
        _ => None,
    }
}

/// What the server answers a connection request with.
pub fn acknowledgement() -> (r: String)
    ensures
        r@ == "Connection acknowledged: b5e4324d-e136-42a4-bcdf-6e97ade63ce3"@,
{
    "Connection acknowledged: b5e4324d-e136-42a4-bcdf-6e97ade63ce3".to_owned()
}

/// The text that asks the other side to close the connection.
pub open spec fn close_connection_text() -> Seq<char> {
    "Close the connection NOW!"@
}

/// Whether the bytes received are the request to close the connection.
pub fn is_close_message(bytes: &[u8]) -> (r: bool)
    ensures
        r == (bytes@ == crate::encoding::utf8(close_connection_text())),
{
    let close = crate::encoding::str_bytes("Close the connection NOW!");
    same_bytes(bytes, close.as_slice())
}

/// Whether two byte strings are equal.
fn same_bytes(a: &[u8], b: &[u8]) -> (r: bool)
    ensures
        r == (a@ == b@),
{
    if a.len() != b.len() {
        return false;
    }
    let mut i: usize = 0;
    while i < a.len()
        invariant
            a@.len() == b@.len(),
            i <= a@.len(),
            forall|k: int| 0 <= k < i ==> a@[k] == b@[k],
        decreases a@.len() - i,
    {
        if a[i] != b[i] {
            return false;
        }
        i += 1;
    }
    assert(a@ =~= b@);
    true
}

} // verus!
