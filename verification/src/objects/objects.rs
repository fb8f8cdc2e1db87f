//! Records that are stored as fixed-size byte blocks.
use vstd::prelude::*;
use crate::base_types::ID;

verus! {

/// A record with a byte encoding; decoding takes the record's id, which is
/// not stored in the bytes.
pub trait Object: Sized {
    type Err;

    spec fn spec_to_bytes(&self) -> Seq<u8>;

    spec fn spec_byte_len(&self) -> usize;

    /// Decoding succeeds on these bytes.
    spec fn decodable(bytes: Seq<u8>) -> bool;

    spec fn spec_decode(bytes: Seq<u8>, id: ID) -> Self;

    /// The error returned for bytes that are not decodable.
    spec fn decode_error(bytes: Seq<u8>, e: Self::Err) -> bool;

    fn to_bytes(&self) -> (r: Vec<u8>)
        ensures
            r@ == self.spec_to_bytes(),
    ;

    fn from_bytes(bytes: &[u8], id: ID) -> (r: Result<Self, Self::Err>)
        ensures
            r is Ok <==> Self::decodable(bytes@),
            r matches Ok(v) ==> v == Self::spec_decode(bytes@, id),
            r matches Err(e) ==> Self::decode_error(bytes@, e),
    ;

    fn byte_len(&self) -> (r: usize)
        ensures
            r == self.spec_byte_len(),
    ;
}

/// Which kind of record an index is built over.
#[derive(Debug, Clone, Copy, PartialEq, Eq)]
pub enum ObjectType {
    Vertex,
    Relationship,
}

} // verus!
