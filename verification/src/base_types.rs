//! Identifier types, the serialization interface and query response packages.
use vstd::prelude::*;
use crate::encoding;
use crate::errors::{FromBytesError, U8EnumConversionError};

verus! {

/// Identifier used for vertices, relationships, properties and types.
pub type ID = u32;

pub type RelationshipId = ID;

pub type RelationshipType = u32;

pub type VertexId = ID;

pub type PropertyId = ID;

pub type TypeID = ID;

pub type TypeId = ID;

pub type ConstraintId = ID;

pub type ConnectionId = u64;

/// Values with a byte encoding.
///
/// `to_bytes` runs to completion exactly when `to_bytes_ok` holds and then
/// returns `spec_to_bytes`; `from_bytes` runs to completion exactly when
/// `from_bytes_ok` holds, fails exactly when `from_bytes_err` holds and
/// otherwise returns a value related to the input by `decodes_to`.
pub trait Serializable: Sized {
    spec fn spec_to_bytes(&self) -> Seq<u8>;

    spec fn to_bytes_ok(&self) -> bool;

    spec fn from_bytes_ok(bytes: Seq<u8>) -> bool;

    spec fn from_bytes_err(bytes: Seq<u8>) -> bool;

    spec fn decodes_to(bytes: Seq<u8>, v: Self) -> bool;

    fn to_bytes(&self) -> (r: Vec<u8>)
        requires
            self.to_bytes_ok(),
        ensures
            r@ == self.spec_to_bytes(),
    ;

    fn from_bytes(bytes: &[u8]) -> (r: Result<Self, FromBytesError>)
        requires
            Self::from_bytes_ok(bytes@),
        ensures
            r is Err <==> Self::from_bytes_err(bytes@),
            r matches Ok(v) ==> Self::decodes_to(bytes@, v),
    ;

    fn byte_length(&self) -> (n: usize)
        requires
            self.to_bytes_ok(),
        ensures
            n == self.spec_to_bytes().len(),
    {
        self.to_bytes().len()
    }
}

/// The kind of a query response package; its byte is its position in
/// `Eof, Header, Debug, Row, Error`.
#[derive(Debug, Clone, Copy, PartialEq, Eq)]
pub enum QueryResponsePackageType {
    Eof,
    Header,
    Debug,
    Row,
    Error,
}

impl QueryResponsePackageType {
    pub open spec fn spec_byte(self) -> u8 {
        match self {
            QueryResponsePackageType::Eof => 0,
            QueryResponsePackageType::Header => 1,
            QueryResponsePackageType::Debug => 2,
            QueryResponsePackageType::Row => 3,
            QueryResponsePackageType::Error => 4,
        }
    }

    pub open spec fn spec_from_byte(b: u8) -> Option<QueryResponsePackageType> {
        if b == 0 {
            Some(QueryResponsePackageType::Eof)
        } else if b == 1 {
            Some(QueryResponsePackageType::Header)
        } else if b == 2 {
            Some(QueryResponsePackageType::Debug)
        } else if b == 3 {
            Some(QueryResponsePackageType::Row)
        } else if b == 4 {
            Some(QueryResponsePackageType::Error)
        } else {
            None
        }
    }

    /// The byte that stands for this kind.
    pub fn to_byte(self) -> (r: u8)
        ensures
            r == self.spec_byte(),
    {
        match self {
            QueryResponsePackageType::Eof => 0,
            QueryResponsePackageType::Header => 1,
            QueryResponsePackageType::Debug => 2,
            QueryResponsePackageType::Row => 3,
            QueryResponsePackageType::Error => 4,
        }
    }

    /// The kind that a byte stands for; bytes above 4 are refused.
    pub fn try_from(value: u8) -> (r: Result<Self, U8EnumConversionError>)
        ensures
            match r {
                Ok(t) => Self::spec_from_byte(value) == Some(t),
                Err(e) => Self::spec_from_byte(value) is None && e.invalid_value == value,
            },
    {
        match value {
            0 => Ok(Self::Eof),
            1 => Ok(Self::Header),
            2 => Ok(Self::Debug),
            3 => Ok(Self::Row),
            4 => Ok(Self::Error),
            val => Err(U8EnumConversionError::new(val)),
        }
    }
}

pub proof fn lemma_package_type_byte_roundtrip(t: QueryResponsePackageType)
    ensures
        QueryResponsePackageType::spec_from_byte(t.spec_byte()) == Some(t),
{
}

/// One package of a query response: a kind and a payload.
#[derive(Debug)]
pub struct QueryResponsePackage {
    pub package_type: QueryResponsePackageType,
    pub payload: Vec<u8>,
}

impl QueryResponsePackage {
    pub fn new(tp: QueryResponsePackageType, payload: Vec<u8>) -> (r: Self)
        ensures
            r.package_type == tp,
            r.payload == payload,
    {
        QueryResponsePackage { package_type: tp, payload }
    }

    /// Decodes like `from_bytes`, but answers `None` on the bytes that
    /// `from_bytes` cannot read: fewer than three, an unknown package type,
    /// or an announced payload length other than that of the rest.
    pub fn checked_from_bytes(bytes: &[u8]) -> (r: Option<Result<Self, FromBytesError>>)
        ensures
            r is Some <==> Self::from_bytes_ok(bytes@),
            r matches Some(res) ==> (res is Err <==> Self::from_bytes_err(bytes@)),
            r matches Some(Ok(v)) ==> Self::decodes_to(bytes@, v),
    {
        if bytes.len() < 3 {
            return None;
        }
        let known = match QueryResponsePackageType::try_from(bytes[0]) {
            Ok(_) => true,
            Err(_) => false,
        };
        if !known || bytes.len() != 3 + encoding::read_u16_le(bytes, 1) as usize {
            return None;
        }
        Some(Self::from_bytes(bytes))
    }
}

impl Serializable for QueryResponsePackage {
    /// kind byte, payload length (u16 LE), payload
    open spec fn spec_to_bytes(&self) -> Seq<u8> {
        seq![self.package_type.spec_byte()] + encoding::le_u16(self.payload@.len() as u16) + self.payload@
    }

    open spec fn to_bytes_ok(&self) -> bool {
        self.payload@.len() <= u16::MAX
    }

    open spec fn from_bytes_ok(bytes: Seq<u8>) -> bool {
        &&& bytes.len() >= 3
        &&& QueryResponsePackageType::spec_from_byte(bytes[0]) is Some
        &&& bytes.len() == 3 + encoding::u16_at(bytes, 1)
    }

    open spec fn from_bytes_err(bytes: Seq<u8>) -> bool {
        false
    }

    open spec fn decodes_to(bytes: Seq<u8>, v: Self) -> bool {
        &&& QueryResponsePackageType::spec_from_byte(bytes[0]) == Some(v.package_type)
        &&& v.payload@ == bytes.subrange(3, bytes.len() as int)
    }

    fn to_bytes(&self) -> (r: Vec<u8>) {
        let mut ret: Vec<u8> = Vec::new();
        ret.push(self.package_type.to_byte());
        let pl_len = self.payload.len() as u16;
        encoding::push_u16_le(&mut ret, pl_len);
        encoding::append_bytes(&mut ret, self.payload.as_slice());
        ret
    }

    fn from_bytes(bytes: &[u8]) -> (r: Result<Self, FromBytesError>) {
        let package_type = match QueryResponsePackageType::try_from(bytes[0]) {
            Ok(t) => t,
            Err(_) => {
                proof {
                    assert(false);
                }
                QueryResponsePackageType::Eof
            },
        };
        let _len = encoding::read_u16_le(bytes, 1);
        let payload = encoding::copy_range(bytes, 3, bytes.len());
        Ok(QueryResponsePackage::new(package_type, payload))
    }
}

/// Encoding a package and decoding the bytes gives the package back.
pub proof fn lemma_query_response_package_roundtrip(p: QueryResponsePackage)
    requires
        p.to_bytes_ok(),
    ensures
        QueryResponsePackage::from_bytes_ok(p.spec_to_bytes()),
        !QueryResponsePackage::from_bytes_err(p.spec_to_bytes()),
        QueryResponsePackage::decodes_to(p.spec_to_bytes(), p),
{
    let b = p.spec_to_bytes();
    encoding::lemma_u16_roundtrip(p.payload@.len() as u16);
    assert(encoding::u16_at(b, 1) == encoding::u16_at(encoding::le_u16(p.payload@.len() as u16), 0));
    assert(b.subrange(3, b.len() as int) == p.payload@);
}

/// The response to a query: a list of packages.
#[derive(Debug)]
pub struct QueryResponse {
    pub packages: Vec<QueryResponsePackage>,
}

/// The payload of the placeholder package of a response.
pub open spec fn greeting_text() -> Seq<char> {
    "Hello world from worker thread"@
}

impl QueryResponse {
    /// A response made of one debug package that holds a fixed greeting.
    pub fn default() -> (r: Self)
        ensures
            r.packages@.len() == 1,
            r.packages@[0].package_type == QueryResponsePackageType::Debug,
            r.packages@[0].payload@ == encoding::utf8(greeting_text()),
    {
        let qrp = QueryResponsePackage::new(
            QueryResponsePackageType::Debug,
            encoding::str_bytes("Hello world from worker thread"),
        );
        let mut packages: Vec<QueryResponsePackage> = Vec::new();
        packages.push(qrp);
        QueryResponse { packages }
    }
}

} // verus!
