//! Stable identities supplied by document and operation layers.
use vstd::prelude::*;

verus! {

/// A stable semantic identity intended to survive deterministic recomputation.
///
/// The kernel never generates random semantic IDs. A caller supplies them or
/// derives them deterministically from document and feature identities.
#[derive(Clone, Copy, Debug, PartialEq, Eq, Hash, PartialOrd, Ord)]
pub struct SemanticId([u8; 16]);

impl SemanticId {
    /// The canonical 16-byte representation.
    pub closed spec fn spec_bytes(self) -> [u8; 16] {
        self.0
    }

    /// Creates an identity from its canonical 16-byte representation.
    pub fn from_bytes(bytes: [u8; 16]) -> (id: Self)
        ensures
            id.spec_bytes() == bytes,
    {
        Self(bytes)
    }

    /// Returns the canonical byte representation.
    pub fn into_bytes(self) -> (bytes: [u8; 16])
        ensures
            bytes == self.spec_bytes(),
    {
        self.0
    }
}

/// A stable identity for the operation that created or transformed geometry.
#[derive(Clone, Copy, Debug, PartialEq, Eq, Hash, PartialOrd, Ord)]
pub struct OperationId([u8; 16]);

impl OperationId {
    /// The canonical 16-byte representation.
    pub closed spec fn spec_bytes(self) -> [u8; 16] {
        self.0
    }

    /// Creates an operation identity from its canonical 16-byte representation.
    pub fn from_bytes(bytes: [u8; 16]) -> (id: Self)
        ensures
            id.spec_bytes() == bytes,
    {
        Self(bytes)
    }

    /// Returns the canonical byte representation.
    pub fn into_bytes(self) -> (bytes: [u8; 16])
        ensures
            bytes == self.spec_bytes(),
    {
        self.0
    }
}

} // verus!
