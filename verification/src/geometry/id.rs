//! Typed, generation-checked geometry handles.
use vstd::prelude::*;

verus! {

/// A deterministic arena slot and generation.
#[derive(Clone, Copy, Debug, PartialEq, Eq, Hash, PartialOrd, Ord, Structural)]
pub struct GeometryHandle {
    slot: u32,
    generation: u32,
}

impl GeometryHandle {
    /// The arena slot.
    pub closed spec fn spec_slot(self) -> u32 {
        self.slot
    }

    /// The generation used to reject stale handles.
    pub closed spec fn spec_generation(self) -> u32 {
        self.generation
    }

    /// Creates a handle from a deterministic slot and generation.
    pub fn new(slot: u32, generation: u32) -> (handle: Self)
        ensures
            handle.spec_slot() == slot,
            handle.spec_generation() == generation,
    {
        Self { slot, generation }
    }

    /// Returns the arena slot.
    pub fn slot(self) -> (slot: u32)
        ensures
            slot == self.spec_slot(),
    {
        self.slot
    }

    /// Returns the generation used to reject stale handles.
    pub fn generation(self) -> (generation: u32)
        ensures
            generation == self.spec_generation(),
    {
        self.generation
    }
}

/// Identity of a canonical parameter-space curve.
#[derive(Clone, Copy, Debug, PartialEq, Eq, Hash, PartialOrd, Ord, Structural)]
pub struct Curve2Id(GeometryHandle);

impl Curve2Id {
    /// The untyped handle.
    pub closed spec fn spec_handle(self) -> GeometryHandle {
        self.0
    }

    /// Creates a typed geometry ID.
    pub fn new(slot: u32, generation: u32) -> (id: Self)
        ensures
            id.spec_handle().spec_slot() == slot,
            id.spec_handle().spec_generation() == generation,
    {
        Self(GeometryHandle::new(slot, generation))
    }

    /// Returns the untyped handle for serialization and arena access.
    pub fn handle(self) -> (handle: GeometryHandle)
        ensures
            handle == self.spec_handle(),
    {
        self.0
    }
}

/// Identity of a canonical model-space curve.
#[derive(Clone, Copy, Debug, PartialEq, Eq, Hash, PartialOrd, Ord, Structural)]
pub struct Curve3Id(GeometryHandle);

impl Curve3Id {
    /// The untyped handle.
    pub closed spec fn spec_handle(self) -> GeometryHandle {
        self.0
    }

    /// Creates a typed geometry ID.
    pub fn new(slot: u32, generation: u32) -> (id: Self)
        ensures
            id.spec_handle().spec_slot() == slot,
            id.spec_handle().spec_generation() == generation,
    {
        Self(GeometryHandle::new(slot, generation))
    }

    /// Returns the untyped handle for serialization and arena access.
    pub fn handle(self) -> (handle: GeometryHandle)
        ensures
            handle == self.spec_handle(),
    {
        self.0
    }
}

/// Identity of a canonical model-space surface.
#[derive(Clone, Copy, Debug, PartialEq, Eq, Hash, PartialOrd, Ord, Structural)]
pub struct SurfaceId(GeometryHandle);

impl SurfaceId {
    /// The untyped handle.
    pub closed spec fn spec_handle(self) -> GeometryHandle {
        self.0
    }

    /// Creates a typed geometry ID.
    pub fn new(slot: u32, generation: u32) -> (id: Self)
        ensures
            id.spec_handle().spec_slot() == slot,
            id.spec_handle().spec_generation() == generation,
    {
        Self(GeometryHandle::new(slot, generation))
    }

    /// Returns the untyped handle for serialization and arena access.
    pub fn handle(self) -> (handle: GeometryHandle)
        ensures
            handle == self.spec_handle(),
    {
        self.0
    }
}

} // verus!
