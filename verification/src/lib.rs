//! Data structures to build and consume 2D vector-graphics paths.
//!
//! A [`path::Path`] is built incrementally through a [`builder::PathBuilder`],
//! which enforces the subpath sequencing rules (no edge before a subpath is
//! begun, every subpath explicitly or implicitly ended), stores the result as
//! a compact verb/point encoding, and replays it as a stream of
//! [`events::PathEvent`] values, optionally with curves flattened into line
//! segments within a caller-supplied tolerance.
//!
//! All curve mathematics (smooth-control reflection, curve flattening, arc
//! approximation) is delegated to the `lyon_geom` crate through the trusted
//! declarations in [`geometry`].

use vstd::prelude::*;

pub mod builder;
pub mod events;
pub mod geometry;
pub mod iterator;
pub mod path;

pub use crate::builder::PathBuilder;
pub use crate::events::CubicTo;
pub use crate::events::PathEvent;
pub use crate::events::Verb;
pub use crate::iterator::Flattened;
pub use crate::iterator::Iter;
pub use crate::path::Path;

verus! {

/// The fill rule defines how to determine what is inside and what is outside
/// of a shape, as in the SVG specification. Consumed by downstream fill and
/// tessellation logic only.
#[derive(Copy, Clone, Debug, PartialEq, Eq, Structural)]
pub enum FillRule {
    EvenOdd,
    NonZero,
}

/// How an operation on a path can fail.
#[derive(Copy, Clone, Debug, PartialEq, Eq, Structural)]
pub enum PathError {
    /// An edge-drawing operation was invoked while no subpath is open.
    InvalidState,
    /// A direct point-buffer access used an index beyond the stored length.
    IndexOutOfRange,
}

/// The integer type vertex ids index with.
pub type Index = u32;

/// A virtual vertex offset in a geometry.
///
/// `VertexId` values are only meaningful between a begin-geometry and a
/// matching end-geometry bracket owned by an external geometry builder; this
/// crate only defines and carries the value.
#[derive(Copy, Clone, Debug, PartialEq, Eq, Structural, Hash)]
pub struct VertexId(pub Index);

impl VertexId {
    /// The distinguished sentinel for an invalid vertex: the maximum
    /// representable index.
    pub fn invalid() -> (r: VertexId)
        ensures
            r.0 == u32::MAX,
    {
        VertexId(u32::MAX)
    }

    /// The raw index this id stands for.
    pub fn offset(&self) -> (r: u32)
        ensures
            r == self.0,
    {
        self.0
    }

    /// The index as a `usize`, for direct buffer indexing.
    pub fn to_usize(&self) -> (r: usize)
        ensures
            r == self.0 as usize,
    {
        self.0 as usize
    }

    /// Builds an id from a buffer index; a narrowing conversion truncates.
    pub fn from_usize(v: usize) -> (r: Self)
        ensures
            r.0 == v as u32,
    {
        VertexId(#[verifier::truncate] (v as u32))
    }

    /// The id `rhs` places later; the offset must not wrap past the valid
    /// range.
    pub fn add(self, rhs: u32) -> (r: VertexId)
        requires
            self.0 + rhs <= u32::MAX,
        ensures
            r.0 == self.0 + rhs,
    {
        VertexId(self.0 + rhs)
    }

    /// The id `rhs` places earlier; the offset must not wrap below zero.
    pub fn sub(self, rhs: u32) -> (r: VertexId)
        requires
            rhs <= self.0,
        ensures
            r.0 == self.0 - rhs,
    {
        VertexId(self.0 - rhs)
    }
}

impl From<u16> for VertexId {
    fn from(v: u16) -> (r: Self) {
        VertexId(v as u32)
    }
}

impl vstd::std_specs::convert::FromSpecImpl<u16> for VertexId {
    open spec fn obeys_from_spec() -> bool {
        true
    }

    open spec fn from_spec(v: u16) -> Self {
        VertexId(v as u32)
    }
}

impl From<u32> for VertexId {
    fn from(v: u32) -> (r: Self) {
        VertexId(v)
    }
}

impl vstd::std_specs::convert::FromSpecImpl<u32> for VertexId {
    open spec fn obeys_from_spec() -> bool {
        true
    }

    open spec fn from_spec(v: u32) -> Self {
        VertexId(v)
    }
}

impl From<i32> for VertexId {
    fn from(v: i32) -> (r: Self) {
        VertexId(#[verifier::truncate] (v as u32))
    }
}

impl vstd::std_specs::convert::FromSpecImpl<i32> for VertexId {
    open spec fn obeys_from_spec() -> bool {
        true
    }

    open spec fn from_spec(v: i32) -> Self {
        VertexId(v as u32)
    }
}

impl From<VertexId> for u16 {
    fn from(v: VertexId) -> (r: u16) {
        #[verifier::truncate] (v.0 as u16)
    }
}

impl vstd::std_specs::convert::FromSpecImpl<VertexId> for u16 {
    open spec fn obeys_from_spec() -> bool {
        true
    }

    open spec fn from_spec(v: VertexId) -> u16 {
        v.0 as u16
    }
}

impl From<VertexId> for u32 {
    fn from(v: VertexId) -> (r: u32) {
        v.0
    }
}

impl vstd::std_specs::convert::FromSpecImpl<VertexId> for u32 {
    open spec fn obeys_from_spec() -> bool {
        true
    }

    open spec fn from_spec(v: VertexId) -> u32 {
        v.0
    }
}

impl From<VertexId> for i32 {
    fn from(v: VertexId) -> (r: i32) {
        #[verifier::truncate] (v.0 as i32)
    }
}

impl vstd::std_specs::convert::FromSpecImpl<VertexId> for i32 {
    open spec fn obeys_from_spec() -> bool {
        true
    }

    open spec fn from_spec(v: VertexId) -> i32 {
        v.0 as i32
    }
}

impl From<VertexId> for usize {
    fn from(v: VertexId) -> (r: usize) {
        v.0 as usize
    }
}

impl vstd::std_specs::convert::FromSpecImpl<VertexId> for usize {
    open spec fn obeys_from_spec() -> bool {
        true
    }

    open spec fn from_spec(v: VertexId) -> usize {
        v.0 as usize
    }
}

} // verus!
