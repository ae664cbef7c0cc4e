//! The mathematical model of the codec: the alphabet, the bit-interleaved
//! binary subdivision, and the cell that a string of characters denotes.
//!
//! All bounds live in *biased* scaled degrees: longitude shifted by +180
//! degrees into `[0, LON_SPAN]`, latitude shifted by +90 degrees into
//! `[0, LAT_SPAN]`, both counted in units of `1 / COORD_SCALE` degrees.

use vstd::arithmetic::div_mod::{
    lemma_fundamental_div_mod, lemma_fundamental_div_mod_converse,
};
use vstd::prelude::*;

use crate::types::{Coordinate, Rect};

verus! {

/// Scaled units per degree: 2^52.
pub const COORD_SCALE: i64 = 0x10_0000_0000_0000;

/// 180 degrees in scaled units; longitudes lie in `[-LON_BIAS, LON_BIAS]`.
pub const LON_BIAS: i64 = 180 * COORD_SCALE;

/// 90 degrees in scaled units; latitudes lie in `[-LAT_BIAS, LAT_BIAS]`.
pub const LAT_BIAS: i64 = 90 * COORD_SCALE;

/// Width of the full longitude range (360 degrees) in scaled units.
pub const LON_SPAN: u64 = 360 * 0x10_0000_0000_0000;

/// Width of the full latitude range (180 degrees) in scaled units.
pub const LAT_SPAN: u64 = 180 * 0x10_0000_0000_0000;

/// Longest string length at which every midpoint of the subdivision is a
/// whole number of scaled units: `len` characters narrow each axis `2 * len`
/// times, and `2 * 26 = 52` halvings of a span divisible by `2^52` stay exact.
pub const MAX_PRECISION: usize = 26;

/// A cell of the subdivision, in biased scaled degrees.
/// `xlo <= xhi` and `ylo <= yhi` hold for every cell the recursion reaches.
pub struct CellBounds {
    pub xlo: int,
    pub xhi: int,
    pub ylo: int,
    pub yhi: int,
}

/// The whole world: the cell that an empty string denotes.
pub open spec fn start_cell() -> CellBounds {
    CellBounds { xlo: 0, xhi: LON_SPAN as int, ylo: 0, yhi: LAT_SPAN as int }
}

/// The 16-symbol alphabet, character of a 4-bit value.
pub open spec fn char_of_value(v: int) -> char {
    if v == 0 { '0' }
    else if v == 1 { '1' }
    else if v == 2 { '2' }
    else if v == 3 { '3' }
    else if v == 4 { '4' }
    else if v == 5 { '5' }
    else if v == 6 { '6' }
    else if v == 7 { '7' }
    else if v == 8 { '8' }
    else if v == 9 { '9' }
    else if v == 10 { 'a' }
    else if v == 11 { 'b' }
    else if v == 12 { 'c' }
    else if v == 13 { 'd' }
    else if v == 14 { 'e' }
    else { 'f' }
}

/// Inverse alphabet lookup: `0-9` map to 0-9, `a-f` (lowercase only) map to
/// 10-15, anything else to -1.
pub open spec fn value_of_char(c: char) -> int {
    if 48 <= c as u32 && c as u32 <= 57 { c as u32 - 48 }
    else if 97 <= c as u32 && c as u32 <= 102 { c as u32 - 87 }
    else { -1 }
}

pub open spec fn is_valid_char(c: char) -> bool {
    value_of_char(c) >= 0
}

pub open spec fn all_chars_valid(s: Seq<char>) -> bool {
    forall|i: int| 0 <= i < s.len() ==> is_valid_char(#[trigger] s[i])
}

/// The leftmost character outside the alphabet (the one decoding reports).
pub open spec fn first_invalid_char(s: Seq<char>) -> char
    decreases s.len(),
{
    if s.len() == 0 { ' ' }
    else if !is_valid_char(s[0]) { s[0] }
    else { first_invalid_char(s.skip(1)) }
}

pub open spec fn bit_int(b: bool) -> int {
    if b { 1 } else { 0 }
}

/// One halving of one axis while encoding: the bit says whether the value
/// lies strictly above the midpoint, and the half it lies in remains.
pub open spec fn encode_step(v: int, lo: int, hi: int) -> (bool, int, int) {
    let mid = (lo + hi) / 2;
    if v > mid { (true, mid, hi) } else { (false, lo, mid) }
}

/// One halving of one axis while decoding: bit 1 keeps the upper half,
/// bit 0 the lower half — exactly the half encoding chose to produce it.
pub open spec fn decode_step(b: bool, lo: int, hi: int) -> (int, int) {
    let mid = (lo + hi) / 2;
    if b { (mid, hi) } else { (lo, mid) }
}

/// One character of encoding: four bits, alternating axes.  The global bit
/// stream starts with longitude and alternates every bit; since every
/// character consumes exactly four bits, every character boundary lands on
/// the same parity, so each character is longitude, latitude, longitude,
/// latitude.  The four bits form a value 0-15, most significant bit first.
pub open spec fn encode_char(x: int, y: int, c: CellBounds) -> (int, CellBounds) {
    let (b0, xlo0, xhi0) = encode_step(x, c.xlo, c.xhi);
    let (b1, ylo0, yhi0) = encode_step(y, c.ylo, c.yhi);
    let (b2, xlo1, xhi1) = encode_step(x, xlo0, xhi0);
    let (b3, ylo1, yhi1) = encode_step(y, ylo0, yhi0);
    (
        8 * bit_int(b0) + 4 * bit_int(b1) + 2 * bit_int(b2) + bit_int(b3),
        CellBounds { xlo: xlo1, xhi: xhi1, ylo: ylo1, yhi: yhi1 },
    )
}

/// One character of decoding: the inverse of `encode_char` on the same cell.
pub open spec fn decode_char(v: int, c: CellBounds) -> CellBounds {
    let (xlo0, xhi0) = decode_step(v / 8 % 2 == 1, c.xlo, c.xhi);
    let (ylo0, yhi0) = decode_step(v / 4 % 2 == 1, c.ylo, c.yhi);
    let (xlo1, xhi1) = decode_step(v / 2 % 2 == 1, xlo0, xhi0);
    let (ylo1, yhi1) = decode_step(v % 2 == 1, ylo0, yhi0);
    CellBounds { xlo: xlo1, xhi: xhi1, ylo: ylo1, yhi: yhi1 }
}

/// The characters produced by encoding `(x, y)` for `len` characters,
/// starting from cell `c`.
pub open spec fn encode_chars(x: int, y: int, c: CellBounds, len: nat) -> Seq<char>
    decreases len,
{
    if len == 0 {
        Seq::empty()
    } else {
        let (v, c2) = encode_char(x, y, c);
        seq![char_of_value(v)] + encode_chars(x, y, c2, (len - 1) as nat)
    }
}

/// The cell encoding has narrowed to after `len` characters.
pub open spec fn encode_cell(x: int, y: int, c: CellBounds, len: nat) -> CellBounds
    decreases len,
{
    if len == 0 {
        c
    } else {
        let (v, c2) = encode_char(x, y, c);
        encode_cell(x, y, c2, (len - 1) as nat)
    }
}

/// The cell a character sequence narrows `c` to.
pub open spec fn decode_chars(s: Seq<char>, c: CellBounds) -> CellBounds
    decreases s.len(),
{
    if s.len() == 0 {
        c
    } else {
        decode_chars(s.skip(1), decode_char(value_of_char(s[0]), c))
    }
}

/// The cell (in biased scaled degrees) that a geohash string denotes.
pub open spec fn bbox_of(s: Seq<char>) -> CellBounds {
    decode_chars(s, start_cell())
}

/// The geohash of a coordinate given in plain (unbiased) scaled degrees.
pub open spec fn geohash_of(x: int, y: int, len: nat) -> Seq<char> {
    encode_chars(x + LON_BIAS, y + LAT_BIAS, start_cell(), len)
}

/// Valid coordinate range: the full globe, boundaries included.
pub open spec fn coord_in_range(x: int, y: int) -> bool {
    -LON_BIAS <= x <= LON_BIAS && -LAT_BIAS <= y <= LAT_BIAS
}

/// Center longitude of a cell, in plain scaled degrees.
pub open spec fn center_x(c: CellBounds) -> int {
    (c.xlo + c.xhi) / 2 - LON_BIAS
}

/// Center latitude of a cell, in plain scaled degrees.
pub open spec fn center_y(c: CellBounds) -> int {
    (c.ylo + c.yhi) / 2 - LAT_BIAS
}

/// Longitude error: half the cell width.
pub open spec fn half_width_x(c: CellBounds) -> int {
    (c.xhi - c.xlo) / 2
}

/// Latitude error: half the cell height.
pub open spec fn half_width_y(c: CellBounds) -> int {
    (c.yhi - c.ylo) / 2
}

/// The cell held in four exec-side bound variables.
pub open spec fn cell_of(xlo: u64, xhi: u64, ylo: u64, yhi: u64) -> CellBounds {
    CellBounds { xlo: xlo as int, xhi: xhi as int, ylo: ylo as int, yhi: yhi as int }
}

/// The rectangle, in plain scaled degrees, of a cell in biased ones.
pub open spec fn rect_of_cell(c: CellBounds) -> Rect {
    Rect {
        min: Coordinate { x: (c.xlo - LON_BIAS) as i64, y: (c.ylo - LAT_BIAS) as i64 },
        max: Coordinate { x: (c.xhi - LON_BIAS) as i64, y: (c.yhi - LAT_BIAS) as i64 },
    }
}

/// A cell that lies inside the whole world (as every reachable cell does).
pub open spec fn cell_in_start(c: CellBounds) -> bool {
    &&& 0 <= c.xlo <= c.xhi <= LON_SPAN as int
    &&& 0 <= c.ylo <= c.yhi <= LAT_SPAN as int
}

/// The midpoint lies between the bounds and splits the width in half.
pub proof fn lemma_mid(lo: int, hi: int)
    requires
        lo <= hi,
    ensures
        lo <= (lo + hi) / 2 <= hi,
        (lo + hi) / 2 == lo + (hi - lo) / 2,
{
    let d = hi - lo;
    lemma_fundamental_div_mod(d, 2);
    lemma_fundamental_div_mod_converse(lo + hi, 2, lo + d / 2, d % 2);
}

/// With an even width both halves of a split are exactly half as wide.
pub proof fn lemma_mid_even(lo: int, hi: int)
    requires
        lo <= hi,
        (hi - lo) % 2 == 0,
    ensures
        (lo + hi) / 2 - lo == (hi - lo) / 2,
        hi - (lo + hi) / 2 == (hi - lo) / 2,
{
    let d = hi - lo;
    lemma_fundamental_div_mod(d, 2);
    lemma_fundamental_div_mod_converse(lo + hi, 2, lo + d / 2, d % 2);
}

/// The first character that fails validation is the one `first_invalid_char`
/// names.
pub proof fn lemma_first_invalid(s: Seq<char>, i: int)
    requires
        0 <= i < s.len(),
        !is_valid_char(s[i]),
        forall|j: int| 0 <= j < i ==> is_valid_char(#[trigger] s[j]),
    ensures
        first_invalid_char(s) == s[i],
    decreases i,
{
    if i > 0 {
        assert forall|j: int| 0 <= j < i - 1 implies is_valid_char(#[trigger] s.skip(1)[j]) by {
            assert(s.skip(1)[j] == s[j + 1]);
        }
        assert(s.skip(1)[i - 1] == s[i]);
        lemma_first_invalid(s.skip(1), i - 1);
    }
}

} // verus!
