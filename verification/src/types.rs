//! The value types of the library.

use vstd::prelude::*;

verus! {

/// A coordinate in exact fixed-point degrees: `x` is the longitude and `y`
/// the latitude, both counted in units of `1 / COORD_SCALE` degrees.
/// Nothing is enforced at construction; validity is checked at encode time.
#[derive(Clone, Copy, PartialEq, Eq, Debug)]
pub struct Coordinate {
    pub x: i64,
    pub y: i64,
}

/// An axis-aligned bounding rectangle: the cell a geohash string denotes.
/// `min.x <= max.x` and `min.y <= max.y` by construction of the subdivision.
#[derive(Clone, Copy, PartialEq, Eq, Debug)]
pub struct Rect {
    pub min: Coordinate,
    pub max: Coordinate,
}

/// The two ways an operation can reject its input.
#[derive(Clone, Copy, PartialEq, Eq, Debug)]
pub enum GeohashError {
    /// A longitude outside [-180, 180] or a latitude outside [-90, 90]
    /// degrees; carries the offending coordinate.
    InvalidCoordinateRange { c: Coordinate },
    /// A character outside `0-9a-f` met while decoding; carries the
    /// offending character.
    InvalidHashCharacter { character: char },
}

} // verus!
