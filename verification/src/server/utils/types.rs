//! Small protocol types.
use vstd::prelude::*;
use crate::errors::U8EnumConversionError;

verus! {

/// Character encoding announced in a startup header; its byte is 0.
#[derive(Clone, Copy, Debug, PartialEq, Eq)]
pub enum Encoding {
    Default,
}

impl Encoding {
    pub open spec fn spec_byte(self) -> u8 {
        0
    }

    pub fn to_byte(self) -> (r: u8)
        ensures
            r == self.spec_byte(),
    {
        0
    }

    /// Byte 0 is the default encoding; every other byte is refused.
    pub fn try_from(value: u8) -> (r: Result<Self, U8EnumConversionError>)
        ensures
            value == 0 <==> r is Ok,
            r matches Err(e) ==> e.invalid_value == value,
    {
        if value == 0 {
            Ok(Encoding::Default)
        } else {
            Err(U8EnumConversionError::new(value))
        }
    }
}

pub type Salt = u16;

/// A SHA-256 digest.
pub type PasswordHash = [u8; 32];

} // verus!
