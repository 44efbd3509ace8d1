//! Versions for deterministic serialized schemas.
use vstd::prelude::*;

verus! {

/// A major/minor version attached to every persisted schema.
#[derive(Clone, Copy, Debug, PartialEq, Eq, Hash, PartialOrd, Ord, Structural)]
pub struct SchemaVersion {
    major: u16,
    minor: u16,
}

impl SchemaVersion {
    /// The compatibility-breaking component.
    pub closed spec fn spec_major(self) -> u16 {
        self.major
    }

    /// The backward-compatible component.
    pub closed spec fn spec_minor(self) -> u16 {
        self.minor
    }

    /// Creates a schema version.
    pub fn new(major: u16, minor: u16) -> (version: Self)
        ensures
            version.spec_major() == major,
            version.spec_minor() == minor,
    {
        Self { major, minor }
    }

    /// Returns the compatibility-breaking version component.
    pub fn major(self) -> (major: u16)
        ensures
            major == self.spec_major(),
    {
        self.major
    }

    /// Returns the backward-compatible version component.
    pub fn minor(self) -> (minor: u16)
        ensures
            minor == self.spec_minor(),
    {
        self.minor
    }
}

} // verus!
