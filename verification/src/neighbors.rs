//! Adjacent cells: the geohash one cell-width away in a compass direction.

use vstd::prelude::*;
use vstd::string::StrSliceExecFns;

use crate::codec::{decode, encode};
use crate::model::{
    all_chars_valid, bbox_of, center_x, center_y, coord_in_range, first_invalid_char, geohash_of,
    half_width_x, half_width_y,
};
use crate::types::{Coordinate, GeohashError};

verus! {

/// A compass direction, as a `(delta latitude, delta longitude)` unit sign
/// pair: north is +1 latitude, east is +1 longitude.
#[derive(Clone, Copy, PartialEq, Eq, Debug)]
pub enum Direction {
    N,
    NE,
    E,
    SE,
    S,
    SW,
    W,
    NW,
}

impl Direction {
    /// The latitude step of this direction: +1, 0 or -1.
    pub open spec fn spec_dlat(self) -> int {
        match self {
            Direction::N => 1,
            Direction::NE => 1,
            Direction::E => 0,
            Direction::SE => -1,
            Direction::S => -1,
            Direction::SW => -1,
            Direction::W => 0,
            Direction::NW => 1,
        }
    }

    /// The longitude step of this direction: +1, 0 or -1.
    pub open spec fn spec_dlng(self) -> int {
        match self {
            Direction::N => 0,
            Direction::NE => 1,
            Direction::E => 1,
            Direction::SE => 1,
            Direction::S => 0,
            Direction::SW => -1,
            Direction::W => -1,
            Direction::NW => -1,
        }
    }

    /// The `(delta latitude, delta longitude)` unit-sign pair.
    pub fn to_tuple(self) -> (r: (i64, i64))
        ensures
            r.0 == self.spec_dlat(),
            r.1 == self.spec_dlng(),
    {
        match self {
            Direction::N => (1, 0),
            Direction::NE => (1, 1),
            Direction::E => (0, 1),
            Direction::SE => (-1, 1),
            Direction::S => (-1, 0),
            Direction::SW => (-1, -1),
            Direction::W => (0, -1),
            Direction::NW => (1, -1),
        }
    }
}

/// The eight geohashes adjacent to a cell, one per compass direction.
#[derive(Clone, PartialEq, Eq, Debug)]
pub struct Neighbors {
    pub n: String,
    pub ne: String,
    pub e: String,
    pub se: String,
    pub s: String,
    pub sw: String,
    pub w: String,
    pub nw: String,
}

/// The coordinate one full cell-width away from the cell's center in the
/// given direction: the center shifted by twice the error margin per axis.
pub open spec fn neighbor_coord(s: Seq<char>, d: Direction) -> (int, int) {
    let cell = bbox_of(s);
    (
        center_x(cell) + 2 * half_width_x(cell) * d.spec_dlng(),
        center_y(cell) + 2 * half_width_y(cell) * d.spec_dlat(),
    )
}

/// What looking up a neighbor returns: decode the string, step one
/// cell-width in the direction, and re-encode at the same length.  A
/// character outside the alphabet is reported first; a step off the edge of
/// the world surfaces as the encoder's range rejection (no wraparound).
pub open spec fn neighbor_spec(s: Seq<char>, d: Direction) -> Result<Seq<char>, GeohashError> {
    if !all_chars_valid(s) {
        Err(GeohashError::InvalidHashCharacter { character: first_invalid_char(s) })
    } else {
        let (tx, ty) = neighbor_coord(s, d);
        if coord_in_range(tx, ty) {
            Ok(geohash_of(tx, ty, s.len()))
        } else {
            Err(
                GeohashError::InvalidCoordinateRange {
                    c: Coordinate { x: tx as i64, y: ty as i64 },
                },
            )
        }
    }
}

/// Holds when looking up the neighbor of `s` in direction `d` succeeds with
/// exactly the characters `out`.
pub open spec fn neighbor_ok(s: Seq<char>, d: Direction, out: Seq<char>) -> bool {
    neighbor_spec(s, d) == Result::<Seq<char>, GeohashError>::Ok(out)
}

/// Holds when looking up the neighbor of `s` in direction `d` fails with
/// exactly the error `e`.
pub open spec fn neighbor_err(s: Seq<char>, d: Direction, e: GeohashError) -> bool {
    neighbor_spec(s, d) == Result::<Seq<char>, GeohashError>::Err(e)
}

/// Find the neighboring geohash in the given direction.
pub fn neighbor(hash_str: &str, direction: Direction) -> (r: Result<String, GeohashError>)
    ensures
        match r {
            Ok(s2) => neighbor_ok(hash_str@, direction, s2@),
            Err(e) => neighbor_err(hash_str@, direction, e),
        },
{
    let (coord, lon_err, lat_err) = match decode(hash_str) {
        Ok(t) => t,
        Err(e) => {
            return Err(e);
        },
    };
    let (dlat, dlng) = direction.to_tuple();
    proof {
        assert(dlng == -1 || dlng == 0 || dlng == 1);
        assert(dlat == -1 || dlat == 0 || dlat == 1);
    }
    let x2 = coord.x + 2 * lon_err * dlng;
    let y2 = coord.y + 2 * lat_err * dlat;
    let len = hash_str.unicode_len();
    encode(Coordinate { x: x2, y: y2 }, len)
}

/// Find all eight neighboring geohashes.  Any single failure aborts the
/// whole lookup and surfaces that direction's error, in the order
/// SW, S, SE, W, E, NW, N, NE.
pub fn neighbors(hash_str: &str) -> (r: Result<Neighbors, GeohashError>)
    ensures
        match r {
            Ok(ns) => {
                &&& neighbor_ok(hash_str@, Direction::SW, ns.sw@)
                &&& neighbor_ok(hash_str@, Direction::S, ns.s@)
                &&& neighbor_ok(hash_str@, Direction::SE, ns.se@)
                &&& neighbor_ok(hash_str@, Direction::W, ns.w@)
                &&& neighbor_ok(hash_str@, Direction::E, ns.e@)
                &&& neighbor_ok(hash_str@, Direction::NW, ns.nw@)
                &&& neighbor_ok(hash_str@, Direction::N, ns.n@)
                &&& neighbor_ok(hash_str@, Direction::NE, ns.ne@)
            },
            Err(e) => {
                let h = hash_str@;
                ||| neighbor_err(h, Direction::SW, e)
                ||| (neighbor_spec(h, Direction::SW) is Ok && neighbor_err(h, Direction::S, e))
                ||| (neighbor_spec(h, Direction::SW) is Ok && neighbor_spec(h, Direction::S) is Ok
                    && neighbor_err(h, Direction::SE, e))
                ||| (neighbor_spec(h, Direction::SW) is Ok && neighbor_spec(h, Direction::S) is Ok
                    && neighbor_spec(h, Direction::SE) is Ok && neighbor_err(h, Direction::W, e))
                ||| (neighbor_spec(h, Direction::SW) is Ok && neighbor_spec(h, Direction::S) is Ok
                    && neighbor_spec(h, Direction::SE) is Ok && neighbor_spec(h, Direction::W) is Ok
                    && neighbor_err(h, Direction::E, e))
                ||| (neighbor_spec(h, Direction::SW) is Ok && neighbor_spec(h, Direction::S) is Ok
                    && neighbor_spec(h, Direction::SE) is Ok && neighbor_spec(h, Direction::W) is Ok
                    && neighbor_spec(h, Direction::E) is Ok && neighbor_err(h, Direction::NW, e))
                ||| (neighbor_spec(h, Direction::SW) is Ok && neighbor_spec(h, Direction::S) is Ok
                    && neighbor_spec(h, Direction::SE) is Ok && neighbor_spec(h, Direction::W) is Ok
                    && neighbor_spec(h, Direction::E) is Ok && neighbor_spec(h, Direction::NW) is Ok
                    && neighbor_err(h, Direction::N, e))
                ||| (neighbor_spec(h, Direction::SW) is Ok && neighbor_spec(h, Direction::S) is Ok
                    && neighbor_spec(h, Direction::SE) is Ok && neighbor_spec(h, Direction::W) is Ok
                    && neighbor_spec(h, Direction::E) is Ok && neighbor_spec(h, Direction::NW) is Ok
                    && neighbor_spec(h, Direction::N) is Ok && neighbor_err(h, Direction::NE, e))
            },
        },
{
    let sw = match neighbor(hash_str, Direction::SW) {
        Ok(g) => g,
        Err(e) => {
            return Err(e);
        },
    };
    let s = match neighbor(hash_str, Direction::S) {
        Ok(g) => g,
        Err(e) => {
            return Err(e);
        },
    };
    let se = match neighbor(hash_str, Direction::SE) {
        Ok(g) => g,
        Err(e) => {
            return Err(e);
        },
    };
    let w = match neighbor(hash_str, Direction::W) {
        Ok(g) => g,
        Err(e) => {
            return Err(e);
        },
    };
    let e = match neighbor(hash_str, Direction::E) {
        Ok(g) => g,
        Err(e) => {
            return Err(e);
        },
    };
    let nw = match neighbor(hash_str, Direction::NW) {
        Ok(g) => g,
        Err(e) => {
            return Err(e);
        },
    };
    let n = match neighbor(hash_str, Direction::N) {
        Ok(g) => g,
        Err(e) => {
            return Err(e);
        },
    };
    let ne = match neighbor(hash_str, Direction::NE) {
        Ok(g) => g,
        Err(e) => {
            return Err(e);
        },
    };
    Ok(Neighbors { n, ne, e, se, s, sw, w, nw })
}

} // verus!
