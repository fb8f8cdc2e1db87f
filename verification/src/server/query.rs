//! Query requests sent by a client and the responses sent back.
use vstd::prelude::*;
use crate::encoding;
use crate::base_types::Serializable;
use crate::errors::FromBytesError;

pub use crate::base_types::{QueryResponse, QueryResponsePackage, QueryResponsePackageType};

verus! {

/// A query and the length of its UTF-8 bytes.
#[derive(Debug)]
pub struct QueryRequest {
    pub query_length: u16,
    pub query: String,
}

impl QueryRequest {
    pub fn new(query: &str) -> (r: Self)
        requires
            encoding::utf8(query@).len() <= u16::MAX,
        ensures
            r.query@ == query@,
            r.query_length == encoding::utf8(query@).len(),
    {
        let length = query.len() as u16;
        QueryRequest { query: query.to_owned(), query_length: length }
    }

    /// Decodes like `from_bytes`, but answers `None` on the inputs on which
    /// `from_bytes` cannot run to completion: a single byte, an announced
    /// end outside `2..=len`, or a decoded query longer than `u16::MAX`
    /// bytes.
    pub fn checked_from_bytes(bytes: &[u8]) -> (r: Option<Result<Self, FromBytesError>>)
        ensures
            r is Some <==> Self::from_bytes_ok(bytes@),
            r matches Some(res) ==> (res is Err <==> Self::from_bytes_err(bytes@)),
            r matches Some(Ok(v)) ==> Self::decodes_to(bytes@, v),
    {
        let n = bytes.len();
        if n == 0 {
            return Some(Self::from_bytes(bytes));
        }
        if n < 2 {
            return None;
        }
        let length = encoding::read_u16_le(bytes, 0) as usize;
        if length < 2 || length > n {
            return None;
        }
        let raw = encoding::copy_range(bytes, 2, length);
        let s = encoding::string_from_utf8_lossy(raw.as_slice());
        let st = s.as_str();
        let sl = st.as_bytes().len();
        assert(sl == encoding::utf8(s@).len());
        if sl > 65535 {
            return None;
        }
        assert(raw@ == bytes@.subrange(2, length as int));
        Some(Self::from_bytes(bytes))
    }
}

impl Serializable for QueryRequest {
    /// query length (u16 LE) followed by the UTF-8 bytes of the query
    open spec fn spec_to_bytes(&self) -> Seq<u8> {
        encoding::le_u16(self.query_length) + encoding::utf8(self.query@)
    }

    open spec fn to_bytes_ok(&self) -> bool {
        encoding::utf8(self.query@).len() < u16::MAX
    }

    /// The decoder reads the announced length `L` and decodes
    /// `bytes[2..L]`, so `L` must lie in `2..=len`; the decoded string must
    /// fit a 16-bit length again.
    open spec fn from_bytes_ok(bytes: Seq<u8>) -> bool {
        bytes.len() == 0 || {
            let l = encoding::u16_at(bytes, 0) as int;
            &&& bytes.len() >= 2
            &&& 2 <= l <= bytes.len()
            &&& encoding::utf8(encoding::lossy_utf8(bytes.subrange(2, l))).len() <= u16::MAX
        }
    }

    open spec fn from_bytes_err(bytes: Seq<u8>) -> bool {
        bytes.len() == 0
    }

    open spec fn decodes_to(bytes: Seq<u8>, v: Self) -> bool {
        let l = encoding::u16_at(bytes, 0) as int;
        &&& v.query@ == encoding::lossy_utf8(bytes.subrange(2, l))
        &&& v.query_length == encoding::utf8(v.query@).len()
    }

    fn to_bytes(&self) -> (r: Vec<u8>) {
        let mut r: Vec<u8> = Vec::new();
        encoding::push_u16_le(&mut r, self.query_length);
        let b_query = encoding::str_bytes(self.query.as_str());
        encoding::append_bytes(&mut r, b_query.as_slice());
        r
    }

    fn from_bytes(bytes: &[u8]) -> (r: Result<Self, FromBytesError>) {
        if bytes.len() == 0 {
            return Err(FromBytesError::new());
        }
        let length = encoding::read_u16_le(bytes, 0) as usize;
        let raw = encoding::copy_range(bytes, 2, length);
        let s = encoding::string_from_utf8_lossy(raw.as_slice());
        Ok(QueryRequest::new(s.as_str()))
    }
}

impl QueryResponse {
    /// A response made of one debug package that holds a fixed greeting.
    pub fn new() -> (r: Self)
        ensures
            r.packages@.len() == 1,
            r.packages@[0].package_type == QueryResponsePackageType::Debug,
            r.packages@[0].payload@ == encoding::utf8(crate::base_types::greeting_text()),
    {
        QueryResponse::default()
    }
}

} // verus!
