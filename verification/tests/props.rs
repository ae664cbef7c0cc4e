use geohash::{
    decode, decode_bbox, encode, hash_value_of_char, neighbor, neighbors, Coordinate, Direction,
    GeohashError, COORD_SCALE, LAT_BIAS, LON_BIAS, MAX_PRECISION,
};

/// Degrees to fixed-point scaled units (exact for the values used here).
fn fixed(v: f64) -> i64 {
    (v * (COORD_SCALE as f64)) as i64
}

#[test]
fn round_trip_within_error() {
    let c = Coordinate {
        x: fixed(112.5584),
        y: fixed(37.8324),
    };
    for len in 1..=MAX_PRECISION {
        let hash = encode(c, len).unwrap();
        assert_eq!(hash.len(), len);
        let (center, lon_err, lat_err) = decode(&hash).unwrap();
        assert!((c.x - center.x).abs() <= lon_err);
        assert!((c.y - center.y).abs() <= lat_err);
    }
}

#[test]
fn round_trip_at_range_boundary() {
    let c = Coordinate {
        x: LON_BIAS,
        y: -LAT_BIAS,
    };
    for len in 1..=20usize {
        let hash = encode(c, len).unwrap();
        let (center, lon_err, lat_err) = decode(&hash).unwrap();
        assert!((c.x - center.x).abs() <= lon_err);
        assert!((c.y - center.y).abs() <= lat_err);
    }
}

#[test]
fn precision_strictly_decreases() {
    let c = Coordinate {
        x: fixed(-120.6623),
        y: fixed(35.3003),
    };
    let mut prev: Option<(i64, i64)> = None;
    for len in 1..=MAX_PRECISION {
        let hash = encode(c, len).unwrap();
        let (_, lon_err, lat_err) = decode(&hash).unwrap();
        if let Some((px, py)) = prev {
            assert!(lon_err < px);
            assert!(lat_err < py);
        }
        prev = Some((lon_err, lat_err));
    }
}

#[test]
fn deterministic() {
    let c = Coordinate {
        x: fixed(112.5584),
        y: fixed(37.8324),
    };
    assert_eq!(encode(c, 9).unwrap(), encode(c, 9).unwrap());
    assert_eq!(decode_bbox("e71150").unwrap(), decode_bbox("e71150").unwrap());
    assert_eq!(decode("e71150").unwrap(), decode("e71150").unwrap());
}

#[test]
fn encode_rejects_out_of_range() {
    let c = Coordinate {
        x: fixed(190.0),
        y: fixed(-100.0),
    };
    assert_eq!(
        encode(c, 3),
        Err(GeohashError::InvalidCoordinateRange { c })
    );
    let east = Coordinate {
        x: LON_BIAS + 1,
        y: 0,
    };
    assert_eq!(
        encode(east, 1),
        Err(GeohashError::InvalidCoordinateRange { c: east })
    );
}

#[test]
fn decode_rejects_first_bad_character() {
    assert_eq!(
        decode("wwgj"),
        Err(GeohashError::InvalidHashCharacter { character: 'w' })
    );
    // case-sensitive: uppercase hex digits are outside the alphabet
    assert_eq!(
        decode_bbox("e65B4a"),
        Err(GeohashError::InvalidHashCharacter { character: 'B' })
    );
    assert_eq!(
        decode("01g2"),
        Err(GeohashError::InvalidHashCharacter { character: 'g' })
    );
}

#[test]
fn alphabet_values() {
    let alphabet = "0123456789abcdef";
    for (i, c) in alphabet.chars().enumerate() {
        assert_eq!(hash_value_of_char(c), Ok(i));
    }
    assert_eq!(
        hash_value_of_char('g'),
        Err(GeohashError::InvalidHashCharacter { character: 'g' })
    );
    assert_eq!(
        hash_value_of_char('A'),
        Err(GeohashError::InvalidHashCharacter { character: 'A' })
    );
}

#[test]
fn exact_decode_values() {
    // all bounds are dyadic rationals, so these are exact comparisons
    let (center, lon_err, lat_err) = decode("e71150").unwrap();
    assert_eq!(center.x, fixed(112.5439453125));
    assert_eq!(center.y, fixed(37.81494140625));
    assert_eq!(lon_err, fixed(0.0439453125));
    assert_eq!(lat_err, fixed(0.02197265625));
}

#[test]
fn empty_string_denotes_the_world() {
    let rect = decode_bbox("").unwrap();
    assert_eq!(rect.min.x, -LON_BIAS);
    assert_eq!(rect.min.y, -LAT_BIAS);
    assert_eq!(rect.max.x, LON_BIAS);
    assert_eq!(rect.max.y, LAT_BIAS);

    let c = Coordinate { x: 0, y: 0 };
    assert_eq!(encode(c, 0).unwrap(), "".to_string());
}

#[test]
fn single_direction_neighbor() {
    assert_eq!(neighbor("e71150dc99", Direction::N).unwrap(), "e71150dc9c");
    assert_eq!(neighbor("e71150dc99", Direction::SW).unwrap(), "e71150dc92");
}

#[test]
fn neighbor_off_the_edge_fails() {
    // "a" is the easternmost cell of its row: one step east leaves the range
    let r = neighbor("a", Direction::E);
    assert!(matches!(
        r,
        Err(GeohashError::InvalidCoordinateRange { .. })
    ));
    // and the character error surfaces unchanged through neighbors
    assert_eq!(
        neighbors("ww"),
        Err(GeohashError::InvalidHashCharacter { character: 'w' })
    );
}
