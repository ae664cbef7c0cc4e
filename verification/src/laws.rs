//! The laws of the codec: encoding and decoding are exact inverses on the
//! cell level, the error margins are an exact function of the string length
//! and shrink strictly as it grows, and everything is deterministic.

use vstd::arithmetic::div_mod::lemma_fundamental_div_mod_converse;
use vstd::arithmetic::power2::{
    lemma2_to64, lemma2_to64_rest, lemma_pow2_adds, lemma_pow2_strictly_increases, pow2,
};
use vstd::prelude::*;

use crate::model::{
    bbox_of, bit_int, cell_in_start, center_x, center_y, char_of_value, coord_in_range,
    decode_char, decode_chars, decode_step, encode_cell, encode_char, encode_chars, encode_step,
    geohash_of, half_width_x, half_width_y, is_valid_char, lemma_mid, lemma_mid_even, start_cell,
    value_of_char, CellBounds, LAT_BIAS, LON_BIAS, MAX_PRECISION,
};

verus! {

/// Mapping a 4-bit value through the alphabet and back returns it unchanged.
proof fn lemma_alphabet_roundtrip(v: int)
    requires
        0 <= v < 16,
    ensures
        is_valid_char(char_of_value(v)),
        value_of_char(char_of_value(v)) == v,
{
}

/// The four bits packed into a value 0-15, most significant first, are
/// recovered by the divisions decoding performs.
proof fn lemma_char_bits(b0: bool, b1: bool, b2: bool, b3: bool)
    ensures
        ({
            let v = 8 * bit_int(b0) + 4 * bit_int(b1) + 2 * bit_int(b2) + bit_int(b3);
            &&& 0 <= v < 16
            &&& (v / 8 % 2 == 1) == b0
            &&& (v / 4 % 2 == 1) == b1
            &&& (v / 2 % 2 == 1) == b2
            &&& (v % 2 == 1) == b3
        }),
{
    let a0 = bit_int(b0);
    let a1 = bit_int(b1);
    let a2 = bit_int(b2);
    let a3 = bit_int(b3);
    let v = 8 * a0 + 4 * a1 + 2 * a2 + a3;
    lemma_fundamental_div_mod_converse(v, 8, a0, 4 * a1 + 2 * a2 + a3);
    lemma_fundamental_div_mod_converse(a0, 2, 0, a0);
    lemma_fundamental_div_mod_converse(v, 4, 2 * a0 + a1, 2 * a2 + a3);
    lemma_fundamental_div_mod_converse(2 * a0 + a1, 2, a0, a1);
    lemma_fundamental_div_mod_converse(v, 2, 4 * a0 + 2 * a1 + a2, a3);
    lemma_fundamental_div_mod_converse(4 * a0 + 2 * a1 + a2, 2, 2 * a0 + a1, a2);
}

/// Encoding produces exactly `len` characters.
proof fn lemma_encode_chars_len(x: int, y: int, c: CellBounds, len: nat)
    ensures
        encode_chars(x, y, c, len).len() == len,
    decreases len,
{
    if len > 0 {
        let (v, c2) = encode_char(x, y, c);
        lemma_encode_chars_len(x, y, c2, (len - 1) as nat);
    }
}

/// Decoding the characters that encoding produced narrows the start cell to
/// exactly the cell encoding ended in: the two directions of the
/// subdivision are inverses.
proof fn lemma_decode_encode(x: int, y: int, c: CellBounds, len: nat)
    ensures
        decode_chars(encode_chars(x, y, c, len), c) == encode_cell(x, y, c, len),
    decreases len,
{
    if len == 0 {
        assert(encode_chars(x, y, c, len) =~= Seq::<char>::empty());
    } else {
        let (b0, xlo0, xhi0) = encode_step(x, c.xlo, c.xhi);
        let (b1, ylo0, yhi0) = encode_step(y, c.ylo, c.yhi);
        let (b2, xlo1, xhi1) = encode_step(x, xlo0, xhi0);
        let (b3, ylo1, yhi1) = encode_step(y, ylo0, yhi0);
        let (v, c2) = encode_char(x, y, c);
        lemma_char_bits(b0, b1, b2, b3);
        lemma_alphabet_roundtrip(v);
        let s = encode_chars(x, y, c, len);
        let rest = encode_chars(x, y, c2, (len - 1) as nat);
        assert(s[0] == char_of_value(v));
        assert(s.skip(1) =~= rest);
        assert(decode_char(value_of_char(char_of_value(v)), c) == c2);
        lemma_decode_encode(x, y, c2, (len - 1) as nat);
    }
}

/// The coordinate being encoded stays inside every cell encoding narrows to.
proof fn lemma_encode_contains(x: int, y: int, c: CellBounds, len: nat)
    requires
        c.xlo <= x <= c.xhi,
        c.ylo <= y <= c.yhi,
    ensures
        ({
            let f = encode_cell(x, y, c, len);
            f.xlo <= x <= f.xhi && f.ylo <= y <= f.yhi
        }),
    decreases len,
{
    if len > 0 {
        let (b0, xlo0, xhi0) = encode_step(x, c.xlo, c.xhi);
        let (b1, ylo0, yhi0) = encode_step(y, c.ylo, c.yhi);
        lemma_mid(c.xlo, c.xhi);
        lemma_mid(c.ylo, c.yhi);
        lemma_mid(xlo0, xhi0);
        lemma_mid(ylo0, yhi0);
        let (v, c2) = encode_char(x, y, c);
        lemma_encode_contains(x, y, c2, (len - 1) as nat);
    }
}

/// Two successive halvings of one axis whose width is a multiple of four:
/// the bounds nest and the width comes out exactly quartered.
proof fn lemma_two_halvings(first: bool, second: bool, lo: int, hi: int, w: int)
    requires
        w >= 0,
        hi - lo == 4 * w,
    ensures
        ({
            let (l1, h1) = decode_step(first, lo, hi);
            let (l2, h2) = decode_step(second, l1, h1);
            lo <= l1 <= l2 <= h2 <= h1 <= hi && h2 - l2 == w
        }),
{
    lemma_fundamental_div_mod_converse(4 * w, 2, 2 * w, 0);
    lemma_mid(lo, hi);
    lemma_mid_even(lo, hi);
    let (l1, h1) = decode_step(first, lo, hi);
    lemma_fundamental_div_mod_converse(2 * w, 2, w, 0);
    lemma_mid(l1, h1);
    lemma_mid_even(l1, h1);
}

/// One character of decoding quarters both axes exactly.
proof fn lemma_decode_char_shape(v: int, c: CellBounds, wx: int, wy: int)
    requires
        wx >= 0,
        wy >= 0,
        c.xhi - c.xlo == 4 * wx,
        c.yhi - c.ylo == 4 * wy,
    ensures
        ({
            let f = decode_char(v, c);
            &&& c.xlo <= f.xlo <= f.xhi <= c.xhi
            &&& f.xhi - f.xlo == wx
            &&& c.ylo <= f.ylo <= f.yhi <= c.yhi
            &&& f.yhi - f.ylo == wy
        }),
{
    lemma_two_halvings(v / 8 % 2 == 1, v / 2 % 2 == 1, c.xlo, c.xhi, wx);
    lemma_two_halvings(v / 4 % 2 == 1, v % 2 == 1, c.ylo, c.yhi, wy);
}

/// Decoding `s` narrows a cell of width `wx * 4^|s|` by `wy * 4^|s|` down to
/// one of exactly `wx` by `wy`, nested inside it: each character quarters
/// each axis.
proof fn lemma_decode_shape(s: Seq<char>, c: CellBounds, wx: int, wy: int)
    requires
        wx >= 0,
        wy >= 0,
        c.xhi - c.xlo == wx * pow2(2 * s.len()),
        c.yhi - c.ylo == wy * pow2(2 * s.len()),
    ensures
        ({
            let f = decode_chars(s, c);
            &&& c.xlo <= f.xlo <= f.xhi <= c.xhi
            &&& f.xhi - f.xlo == wx
            &&& c.ylo <= f.ylo <= f.yhi <= c.yhi
            &&& f.yhi - f.ylo == wy
        }),
    decreases s.len(),
{
    if s.len() == 0 {
        lemma2_to64();
        assert(wx * pow2(2 * s.len()) == wx) by (nonlinear_arith)
            requires
                pow2(2 * s.len()) == 1,
        ;
        assert(wy * pow2(2 * s.len()) == wy) by (nonlinear_arith)
            requires
                pow2(2 * s.len()) == 1,
        ;
    } else {
        let m: nat = (s.len() - 1) as nat;
        lemma_pow2_adds(2, 2 * m);
        lemma2_to64();
        assert(wx * pow2(2 * s.len()) == 4 * (wx * pow2(2 * m))) by (nonlinear_arith)
            requires
                pow2(2 * s.len()) == 4 * pow2(2 * m),
        ;
        assert(wy * pow2(2 * s.len()) == 4 * (wy * pow2(2 * m))) by (nonlinear_arith)
            requires
                pow2(2 * s.len()) == 4 * pow2(2 * m),
        ;
        assert(wx * pow2(2 * m) >= 0) by (nonlinear_arith)
            requires
                wx >= 0,
                pow2(2 * m) >= 0,
        ;
        assert(wy * pow2(2 * m) >= 0) by (nonlinear_arith)
            requires
                wy >= 0,
                pow2(2 * m) >= 0,
        ;
        let f1 = decode_char(value_of_char(s[0]), c);
        lemma_decode_char_shape(value_of_char(s[0]), c, wx * pow2(2 * m), wy * pow2(2 * m));
        assert(s.skip(1).len() == m);
        lemma_decode_shape(s.skip(1), f1, wx, wy);
    }
}

/// The error margins are an exact function of the string length alone:
/// a geohash of `len` characters has a longitude error of `45 * 2^(54 -
/// 2*len)` and a latitude error of `45 * 2^(53 - 2*len)` scaled units (half
/// of 360 respectively 180 degrees, quartered per character), and its cell
/// lies inside the full range with both widths even.
pub proof fn lemma_error_of_length(s: Seq<char>)
    requires
        s.len() <= MAX_PRECISION,
    ensures
        ({
            let cell = bbox_of(s);
            &&& cell_in_start(cell)
            &&& half_width_x(cell) == 45 * pow2((54 - 2 * s.len()) as nat)
            &&& half_width_y(cell) == 45 * pow2((53 - 2 * s.len()) as nat)
            &&& cell.xhi - cell.xlo == 2 * half_width_x(cell)
            &&& cell.yhi - cell.ylo == 2 * half_width_y(cell)
        }),
{
    let len = s.len();
    let ex: nat = (55 - 2 * len) as nat;
    let ey: nat = (54 - 2 * len) as nat;
    lemma2_to64();
    lemma2_to64_rest();
    lemma_pow2_adds(ex, 2 * len);
    lemma_pow2_adds(ey, 2 * len);
    assert((45 * pow2(ex)) * pow2(2 * len) == 45 * pow2(55)) by (nonlinear_arith)
        requires
            pow2(ex) * pow2(2 * len) == pow2(55),
    ;
    assert((45 * pow2(ey)) * pow2(2 * len) == 45 * pow2(54)) by (nonlinear_arith)
        requires
            pow2(ey) * pow2(2 * len) == pow2(54),
    ;
    lemma_decode_shape(s, start_cell(), 45 * pow2(ex) as int, 45 * pow2(ey) as int);
    let cell = bbox_of(s);
    // the widths are even, so halving them is exact
    lemma_pow2_adds(1, (ex - 1) as nat);
    lemma_pow2_adds(1, (ey - 1) as nat);
    assert(45 * pow2(ex) == 2 * (45 * pow2((ex - 1) as nat))) by (nonlinear_arith)
        requires
            pow2(ex) == 2 * pow2((ex - 1) as nat),
    ;
    assert(45 * pow2(ey) == 2 * (45 * pow2((ey - 1) as nat))) by (nonlinear_arith)
        requires
            pow2(ey) == 2 * pow2((ey - 1) as nat),
    ;
    lemma_fundamental_div_mod_converse(
        cell.xhi - cell.xlo,
        2,
        45 * pow2((ex - 1) as nat) as int,
        0,
    );
    lemma_fundamental_div_mod_converse(
        cell.yhi - cell.ylo,
        2,
        45 * pow2((ey - 1) as nat) as int,
        0,
    );
}

/// Round trip: for any coordinate in the valid range and any supported
/// length, the center of the cell that decoding the encoded string returns
/// lies within that cell's error margins of the original coordinate.
pub proof fn lemma_round_trip(x: int, y: int, len: nat)
    requires
        coord_in_range(x, y),
        len <= MAX_PRECISION,
    ensures
        ({
            let cell = bbox_of(geohash_of(x, y, len));
            &&& center_x(cell) - half_width_x(cell) <= x <= center_x(cell) + half_width_x(cell)
            &&& center_y(cell) - half_width_y(cell) <= y <= center_y(cell) + half_width_y(cell)
        }),
{
    let bx = x + LON_BIAS;
    let by = y + LAT_BIAS;
    let s = geohash_of(x, y, len);
    lemma_encode_chars_len(bx, by, start_cell(), len);
    lemma_decode_encode(bx, by, start_cell(), len);
    lemma_encode_contains(bx, by, start_cell(), len);
    lemma_error_of_length(s);
    let cell = bbox_of(s);
    lemma_mid_even(cell.xlo, cell.xhi);
    lemma_mid_even(cell.ylo, cell.yhi);
}

/// Monotonic precision: a strictly longer geohash (within the supported
/// precision) has strictly smaller error margins on both axes, whatever the
/// two strings hold.
pub proof fn lemma_precision_monotonic(s1: Seq<char>, s2: Seq<char>)
    requires
        s1.len() < s2.len() <= MAX_PRECISION,
    ensures
        half_width_x(bbox_of(s2)) < half_width_x(bbox_of(s1)),
        half_width_y(bbox_of(s2)) < half_width_y(bbox_of(s1)),
{
    lemma_error_of_length(s1);
    lemma_error_of_length(s2);
    lemma_pow2_strictly_increases((54 - 2 * s2.len()) as nat, (54 - 2 * s1.len()) as nat);
    lemma_pow2_strictly_increases((53 - 2 * s2.len()) as nat, (53 - 2 * s1.len()) as nat);
    assert(45 * pow2((54 - 2 * s2.len()) as nat) < 45 * pow2((54 - 2 * s1.len()) as nat))
        by (nonlinear_arith)
        requires
            pow2((54 - 2 * s2.len()) as nat) < pow2((54 - 2 * s1.len()) as nat),
    ;
    assert(45 * pow2((53 - 2 * s2.len()) as nat) < 45 * pow2((53 - 2 * s1.len()) as nat))
        by (nonlinear_arith)
        requires
            pow2((53 - 2 * s2.len()) as nat) < pow2((53 - 2 * s1.len()) as nat),
    ;
}

/// Determinism: the geohash of a coordinate and the cell of a string are
/// functions of their inputs alone.  Together with the contracts of
/// `encode`, `decode_bbox` and `decode`, which equate each result with
/// these functions, two calls on equal inputs return equal values.
pub proof fn lemma_deterministic(
    x1: int,
    y1: int,
    len1: nat,
    x2: int,
    y2: int,
    len2: nat,
    s1: Seq<char>,
    s2: Seq<char>,
)
    requires
        x1 == x2,
        y1 == y2,
        len1 == len2,
        s1 == s2,
    ensures
        geohash_of(x1, y1, len1) == geohash_of(x2, y2, len2),
        bbox_of(s1) == bbox_of(s2),
{
}

} // verus!
