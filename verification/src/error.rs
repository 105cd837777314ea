//! The ways in which a JSON object can fail to be a geometry.

use vstd::prelude::*;

verus! {

/// Why a JSON object is not a geometry.
#[derive(Clone, Copy, Debug, PartialEq, Eq, Structural)]
pub enum Error {
    /// The `type` member is a string other than the seven geometry names.
    UnknownType,
    /// The `type` member is missing or is not a string.
    InvalidTypeField,
    /// The `coordinates` or `geometries` member is missing or does not have
    /// the shape that the geometry type asks for.
    MalformedCoordinates,
    /// The `bbox` member is present but is not an array of numbers.
    MalformedBbox,
    /// The `crs` member is present but is not an object.
    MalformedCrs,
}

} // verus!
