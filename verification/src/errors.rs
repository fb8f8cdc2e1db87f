//! Errors of the storage engine and of byte decoding.
use vstd::prelude::*;
use vstd::std_specs::convert::FromSpecImpl;

verus! {

/// Decoding bytes into a value failed.
#[derive(Debug)]
pub struct FromBytesError {}

impl FromBytesError {
    pub fn new() -> (r: Self)
        ensures
            r == (FromBytesError {}),
    {
        FromBytesError {}
    }
}

/// A byte did not stand for any variant of the enum it was decoded into.
#[derive(Debug)]
pub struct U8EnumConversionError {
    pub invalid_value: u8,
}

impl U8EnumConversionError {
    pub fn new(val: u8) -> (r: Self)
        ensures
            r.invalid_value == val,
    {
        U8EnumConversionError { invalid_value: val }
    }
}

/// Common interface of the vertex and relationship creation errors.
pub trait CreationError {
    spec fn spec_message(&self) -> Seq<char>;

    spec fn spec_reason(&self) -> CreationFailureReason;

    fn message(&self) -> (r: &str)
        ensures
            r@ == self.spec_message(),
    ;

    fn reason(&self) -> (r: CreationFailureReason)
        ensures
            r == self.spec_reason(),
    ;
}

#[derive(Debug)]
pub enum CreationFailureReason {
    VertexCreationFailure(VertexCreationFailure),
    RelationshipCreationFailure(RelationshipCreationFailure),
}

/// Creating, reading or writing a relationship failed.
#[derive(Debug)]
pub struct RelationshipCreationError {
    pub message: String,
    pub reason: RelationshipCreationFailure,
}

impl RelationshipCreationError {
    pub fn new(msg: &str, reason: RelationshipCreationFailure) -> (r: Self)
        ensures
            r.message@ == msg@,
            r.reason == reason,
    {
        RelationshipCreationError { message: msg.to_owned(), reason }
    }
}

impl CreationError for RelationshipCreationError {
    open spec fn spec_message(&self) -> Seq<char> {
        self.message@
    }

    open spec fn spec_reason(&self) -> CreationFailureReason {
        CreationFailureReason::RelationshipCreationFailure(self.reason)
    }

    fn message(&self) -> (r: &str) {
        self.message.as_str()
    }

    fn reason(&self) -> (r: CreationFailureReason) {
        CreationFailureReason::RelationshipCreationFailure(self.reason)
    }
}

impl From<CreationFailureReason> for RelationshipCreationFailure {
    fn from(c: CreationFailureReason) -> (r: Self) {
        match c {
            CreationFailureReason::RelationshipCreationFailure(reason) => reason,
            _ => RelationshipCreationFailure::Other,
        }
    }
}

impl FromSpecImpl<CreationFailureReason> for RelationshipCreationFailure {
    open spec fn obeys_from_spec() -> bool {
        true
    }

    open spec fn from_spec(c: CreationFailureReason) -> RelationshipCreationFailure {
        match c {
            CreationFailureReason::RelationshipCreationFailure(reason) => reason,
            _ => RelationshipCreationFailure::Other,
        }
    }
}

#[derive(Debug, Clone, Copy, PartialEq, Eq)]
pub enum RelationshipCreationFailure {
    WrongByteLength,
    IoFailure,
    DbLock,
    ReadNullId,
    Other,
}

/// Creating, reading or writing a vertex failed.
#[derive(Debug)]
pub struct VertexCreationError {
    pub message: String,
    pub reason: VertexCreationFailure,
}

impl VertexCreationError {
    pub fn new(msg: &str, reason: VertexCreationFailure) -> (r: Self)
        ensures
            r.message@ == msg@,
            r.reason == reason,
    {
        VertexCreationError { message: msg.to_owned(), reason }
    }
}

impl CreationError for VertexCreationError {
    open spec fn spec_message(&self) -> Seq<char> {
        self.message@
    }

    open spec fn spec_reason(&self) -> CreationFailureReason {
        CreationFailureReason::VertexCreationFailure(self.reason)
    }

    fn message(&self) -> (r: &str) {
        self.message.as_str()
    }

    fn reason(&self) -> (r: CreationFailureReason) {
        CreationFailureReason::VertexCreationFailure(self.reason)
    }
}

impl From<CreationFailureReason> for VertexCreationFailure {
    fn from(c: CreationFailureReason) -> (r: Self) {
        match c {
            CreationFailureReason::VertexCreationFailure(reason) => reason,
            _ => VertexCreationFailure::Other,
        }
    }
}

impl FromSpecImpl<CreationFailureReason> for VertexCreationFailure {
    open spec fn obeys_from_spec() -> bool {
        true
    }

    open spec fn from_spec(c: CreationFailureReason) -> VertexCreationFailure {
        match c {
            CreationFailureReason::VertexCreationFailure(reason) => reason,
            _ => VertexCreationFailure::Other,
        }
    }
}

#[derive(Debug, Copy, Clone, PartialEq, Eq)]
pub enum VertexCreationFailure {
    WrongByteLength,
    IoFailure,
    DbLock,
    Other,
}

} // verus!
