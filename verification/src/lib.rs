//! Geohash codec over a reduced 16-symbol alphabet (`0-9a-f`).
//!
//! A geohash string names a rectangular cell of the Earth's surface obtained
//! by recursive binary subdivision of the longitude and latitude ranges,
//! one interleaved bit at a time, longitude first.  Each character of the
//! string carries four bits.
//!
//! Note that the alphabet is deliberately *not* the conventional 32-symbol
//! geohash alphabet: this format uses the sixteen symbols `0-9a-f`, four
//! bits per character, and strings of the two formats are not comparable.
//!
//! Coordinates are exact fixed-point degrees: an `i64` counts units of
//! `1 / COORD_SCALE` degrees (`COORD_SCALE` is `2^52`).  Every bound that the
//! subdivision can reach is a dyadic rational, so this representation is
//! exact for every supported precision and the whole codec is plain integer
//! arithmetic.

pub mod codec;
pub mod laws;
pub mod model;
pub mod neighbors;
pub mod types;

pub use crate::codec::{decode, decode_bbox, encode, hash_value_of_char};
pub use crate::model::{COORD_SCALE, LAT_BIAS, LON_BIAS, MAX_PRECISION};
pub use crate::neighbors::{neighbor, neighbors, Direction, Neighbors};
pub use crate::types::{Coordinate, GeohashError, Rect};
