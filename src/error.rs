use vstd::prelude::*;

verus! {

/// The ways in which an operation on the petstore can fail.
#[derive(Clone, Copy, Debug, PartialEq, Eq, Structural)]
pub enum PetstoreError {
    /// A creation request carried an identifier, or was otherwise malformed.
    InvalidInput,
    /// An update was attempted on a record without an identifier.
    MissingIdentifier,
    /// The referenced pet does not exist.
    MissingPet,
    /// The referenced user does not exist.
    MissingUser,
    /// Another user already has the requested username.
    RedundantUserName,
    /// The store was already being accessed in a way that excludes this access.
    AccessConflict,
}

/// The result type of every fallible operation of the petstore.
pub type PetstoreResult<T> = Result<T, PetstoreError>;

impl PetstoreError {
    /// A short human-readable description of the error kind.
    pub fn description(&self) -> (r: &'static str) {
        match self {
            PetstoreError::InvalidInput => "invalid input",
            PetstoreError::MissingIdentifier => "missing identifier",
            PetstoreError::MissingPet => "missing pet",
            PetstoreError::MissingUser => "missing user",
            PetstoreError::RedundantUserName => "redundant username",
            PetstoreError::AccessConflict => "the store is already in use",
        }
    }
}

} // verus!
