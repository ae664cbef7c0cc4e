//! Encoding a coordinate to a geohash string and decoding a string back to
//! the cell, its center and its error margins.

use vstd::prelude::*;
use vstd::string::StrSliceExecFns;

use crate::model::{
    all_chars_valid, bbox_of, cell_in_start, cell_of, center_x, center_y, char_of_value,
    coord_in_range, decode_char, decode_chars, encode_char, encode_chars, first_invalid_char,
    geohash_of, half_width_x, half_width_y, is_valid_char, lemma_first_invalid, lemma_mid,
    rect_of_cell, start_cell, value_of_char, LAT_BIAS, LAT_SPAN, LON_BIAS, LON_SPAN,
};
use crate::types::{Coordinate, GeohashError, Rect};

verus! {

/// Relies on String::push: it appends exactly the given character.
#[verifier::external_body]
fn push_char(s: &mut String, c: char)
    ensures
        final(s)@ == old(s)@.push(c),
{
    s.push(c)
}

/// The character of a 4-bit value, through the 16-symbol alphabet.
fn char_of_value_exec(v: u8) -> (c: char)
    requires
        v < 16,
    ensures
        c == char_of_value(v as int),
{
    match v {
        0 => '0',
        1 => '1',
        2 => '2',
        3 => '3',
        4 => '4',
        5 => '5',
        6 => '6',
        7 => '7',
        8 => '8',
        9 => '9',
        10 => 'a',
        11 => 'b',
        12 => 'c',
        13 => 'd',
        14 => 'e',
        _ => 'f',
    }
}

/// The 4-bit value of one geohash character: `0-9` give 0-9 and lowercase
/// `a-f` give 10-15; any other character is rejected.
pub fn hash_value_of_char(c: char) -> (r: Result<usize, GeohashError>)
    ensures
        match r {
            Ok(v) => is_valid_char(c) && v == value_of_char(c),
            Err(e) => !is_valid_char(c) && e == (GeohashError::InvalidHashCharacter {
                character: c,
            }),
        },
{
    let ord = c as u32;
    if 48 <= ord && ord <= 57 {
        Ok((ord - 48) as usize)
    } else if 97 <= ord && ord <= 102 {
        Ok((ord - 87) as usize)
    } else {
        Err(GeohashError::InvalidHashCharacter { character: c })
    }
}

/// Encode a coordinate to a geohash of `len` characters.
///
/// Succeeds exactly when the coordinate lies in the valid range (longitude
/// within [-180, 180] degrees, latitude within [-90, 90] degrees, both ends
/// included); otherwise it reports the offending coordinate.  The string
/// returned is `geohash_of` the coordinate: the bit-interleaved binary
/// subdivision, longitude first, four bits per character.
pub fn encode(c: Coordinate, len: usize) -> (r: Result<String, GeohashError>)
    ensures
        match r {
            Ok(s) => coord_in_range(c.x as int, c.y as int) && s@ == geohash_of(
                c.x as int,
                c.y as int,
                len as nat,
            ),
            Err(e) => !coord_in_range(c.x as int, c.y as int) && e
                == (GeohashError::InvalidCoordinateRange { c }),
        },
{
    if c.x < -LON_BIAS || c.x > LON_BIAS || c.y < -LAT_BIAS || c.y > LAT_BIAS {
        return Err(GeohashError::InvalidCoordinateRange { c });
    }
    let bx: u64 = (c.x + LON_BIAS) as u64;
    let by: u64 = (c.y + LAT_BIAS) as u64;
    let mut out: String = String::new();
    let mut xlo: u64 = 0;
    let mut xhi: u64 = LON_SPAN;
    let mut ylo: u64 = 0;
    let mut yhi: u64 = LAT_SPAN;
    let mut i: usize = 0;
    while i < len
        invariant
            i <= len,
            bx == c.x + LON_BIAS,
            by == c.y + LAT_BIAS,
            xlo <= xhi <= LON_SPAN,
            ylo <= yhi <= LAT_SPAN,
            encode_chars(bx as int, by as int, start_cell(), len as nat) == out@ + encode_chars(
                bx as int,
                by as int,
                cell_of(xlo, xhi, ylo, yhi),
                (len - i) as nat,
            ),
        decreases len - i,
    {
        let ghost prev = cell_of(xlo, xhi, ylo, yhi);
        let ghost rem = (len - i) as nat;
        let mut val: u8 = 0;
        // first bit: longitude
        let mid0 = (xlo + xhi) / 2;
        if bx > mid0 {
            val = 1;
            xlo = mid0;
        } else {
            xhi = mid0;
        }
        // second bit: latitude
        let mid1 = (ylo + yhi) / 2;
        if by > mid1 {
            val = 2 * val + 1;
            ylo = mid1;
        } else {
            val = 2 * val;
            yhi = mid1;
        }
        // third bit: longitude
        let mid2 = (xlo + xhi) / 2;
        if bx > mid2 {
            val = 2 * val + 1;
            xlo = mid2;
        } else {
            val = 2 * val;
            xhi = mid2;
        }
        // fourth bit: latitude
        let mid3 = (ylo + yhi) / 2;
        if by > mid3 {
            val = 2 * val + 1;
            ylo = mid3;
        } else {
            val = 2 * val;
            yhi = mid3;
        }
        proof {
            lemma_mid(prev.xlo, prev.xhi);
            lemma_mid(prev.ylo, prev.yhi);
            assert(encode_char(bx as int, by as int, prev).0 == val as int);
            assert(encode_char(bx as int, by as int, prev).1 == cell_of(xlo, xhi, ylo, yhi));
        }
        let ch = char_of_value_exec(val);
        let ghost out_before = out@;
        push_char(&mut out, ch);
        i = i + 1;
        proof {
            let next = cell_of(xlo, xhi, ylo, yhi);
            assert(encode_chars(bx as int, by as int, prev, rem) == seq![ch] + encode_chars(
                bx as int,
                by as int,
                next,
                (rem - 1) as nat,
            ));
            assert(out@ =~= out_before + seq![ch]);
            assert(out_before + (seq![ch] + encode_chars(
                bx as int,
                by as int,
                next,
                (rem - 1) as nat,
            )) =~= out@ + encode_chars(bx as int, by as int, next, (rem - 1) as nat));
        }
    }
    proof {
        assert(encode_chars(bx as int, by as int, cell_of(xlo, xhi, ylo, yhi), 0) =~= Seq::<
            char,
        >::empty());
        assert(out@ + Seq::<char>::empty() =~= out@);
    }
    Ok(out)
}

/// Decode a geohash string into the bounding rectangle of its cell.
///
/// Succeeds exactly when every character is drawn from `0-9a-f` (lowercase
/// only); otherwise it reports the leftmost offending character.  The
/// rectangle is the cell reached by undoing the subdivision character by
/// character, and always lies inside the full coordinate range.
pub fn decode_bbox(hash_str: &str) -> (r: Result<Rect, GeohashError>)
    ensures
        match r {
            Ok(rect) => all_chars_valid(hash_str@) && rect == rect_of_cell(bbox_of(hash_str@))
                && cell_in_start(bbox_of(hash_str@)),
            Err(e) => !all_chars_valid(hash_str@) && e == (GeohashError::InvalidHashCharacter {
                character: first_invalid_char(hash_str@),
            }),
        },
{
    let n = hash_str.unicode_len();
    let mut xlo: u64 = 0;
    let mut xhi: u64 = LON_SPAN;
    let mut ylo: u64 = 0;
    let mut yhi: u64 = LAT_SPAN;
    let mut i: usize = 0;
    proof {
        assert(hash_str@.skip(0) =~= hash_str@);
    }
    while i < n
        invariant
            i <= n,
            n == hash_str@.len(),
            xlo <= xhi <= LON_SPAN,
            ylo <= yhi <= LAT_SPAN,
            forall|j: int| 0 <= j < i ==> is_valid_char(#[trigger] hash_str@[j]),
            decode_chars(hash_str@, start_cell()) == decode_chars(
                hash_str@.skip(i as int),
                cell_of(xlo, xhi, ylo, yhi),
            ),
        decreases n - i,
    {
        let ghost prev = cell_of(xlo, xhi, ylo, yhi);
        let ch = hash_str.get_char(i);
        let v: usize = match hash_value_of_char(ch) {
            Ok(v) => v,
            Err(e) => {
                proof {
                    lemma_first_invalid(hash_str@, i as int);
                }
                return Err(e);
            },
        };
        // first bit: longitude
        let mid0 = (xlo + xhi) / 2;
        if v / 8 % 2 == 1 {
            xlo = mid0;
        } else {
            xhi = mid0;
        }
        // second bit: latitude
        let mid1 = (ylo + yhi) / 2;
        if v / 4 % 2 == 1 {
            ylo = mid1;
        } else {
            yhi = mid1;
        }
        // third bit: longitude
        let mid2 = (xlo + xhi) / 2;
        if v / 2 % 2 == 1 {
            xlo = mid2;
        } else {
            xhi = mid2;
        }
        // fourth bit: latitude
        let mid3 = (ylo + yhi) / 2;
        if v % 2 == 1 {
            ylo = mid3;
        } else {
            yhi = mid3;
        }
        proof {
            lemma_mid(prev.xlo, prev.xhi);
            lemma_mid(prev.ylo, prev.yhi);
            assert(decode_char(v as int, prev) == cell_of(xlo, xhi, ylo, yhi));
            assert(hash_str@.skip(i as int)[0] == hash_str@[i as int]);
            assert(hash_str@.skip(i as int).skip(1) =~= hash_str@.skip(i + 1));
        }
        i = i + 1;
    }
    proof {
        assert(hash_str@.skip(n as int) =~= Seq::<char>::empty());
    }
    Ok(
        Rect {
            min: Coordinate { x: (xlo as i64) - LON_BIAS, y: (ylo as i64) - LAT_BIAS },
            max: Coordinate { x: (xhi as i64) - LON_BIAS, y: (yhi as i64) - LAT_BIAS },
        },
    )
}

/// Decode a geohash string into its cell's center coordinate together with
/// the longitude and latitude error margins (the cell's half-width and
/// half-height): the true coordinate lies within the errors of the center.
/// Error conditions are exactly those of `decode_bbox`.
pub fn decode(hash_str: &str) -> (r: Result<(Coordinate, i64, i64), GeohashError>)
    ensures
        match r {
            Ok(t) => {
                let cell = bbox_of(hash_str@);
                &&& all_chars_valid(hash_str@)
                &&& t.0.x == center_x(cell)
                &&& t.0.y == center_y(cell)
                &&& t.1 == half_width_x(cell)
                &&& t.2 == half_width_y(cell)
                &&& coord_in_range(t.0.x as int, t.0.y as int)
                &&& 0 <= t.1 <= LON_BIAS
                &&& 0 <= t.2 <= LAT_BIAS
            },
            Err(e) => !all_chars_valid(hash_str@) && e == (GeohashError::InvalidHashCharacter {
                character: first_invalid_char(hash_str@),
            }),
        },
{
    let rect = match decode_bbox(hash_str) {
        Ok(rect) => rect,
        Err(e) => {
            return Err(e);
        },
    };
    let half_x = (((rect.max.x - rect.min.x) as u64) / 2) as i64;
    let half_y = (((rect.max.y - rect.min.y) as u64) / 2) as i64;
    proof {
        let cell = bbox_of(hash_str@);
        lemma_mid(cell.xlo, cell.xhi);
        lemma_mid(cell.ylo, cell.yhi);
    }
    Ok((Coordinate { x: rect.min.x + half_x, y: rect.min.y + half_y }, half_x, half_y))
}

} // verus!
