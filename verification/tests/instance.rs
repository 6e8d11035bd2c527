use ark_bn254::Fr;
use ark_serialize::CanonicalSerialize;
use base64::Engine;

use point_in_map::CIRCUIT_MAX_POLYGON_HASHES;
use point_in_map::CIRCUIT_MAX_VERTICES;
use point_in_map::fixed_point_decimal::Dec;
use point_in_map::point_2d::Point2DDec;
use point_in_map::prove::{
    Polygon, build_circuit_inputs, encode_public_inputs, hash_cell_boundary, hash_map_cells,
    polygon_from_vertices, resolution_is_valid,
};

fn pt(x: i64, y: i64) -> Point2DDec {
    Point2DDec {
        x: Dec { val: x.unsigned_abs() as u128, neg: x < 0 },
        y: Dec { val: y.unsigned_abs() as u128, neg: y < 0 },
    }
}

fn ccw_square_polygon() -> Polygon {
    polygon_from_vertices(&vec![pt(0, 0), pt(100, 0), pt(100, 100), pt(0, 100)])
}

fn fr_bytes(v: u64) -> Vec<u8> {
    let mut buf = Vec::new();
    Fr::from(v).serialize_uncompressed(&mut buf).unwrap();
    buf
}

#[test]
fn resolution_bounds() {
    assert!(resolution_is_valid(0));
    assert!(resolution_is_valid(9));
    assert!(resolution_is_valid(15));
    assert!(!resolution_is_valid(16));
    assert!(!resolution_is_valid(99));
}

#[test]
fn polygon_buffer_clamps_and_pads() {
    let p = polygon_from_vertices(&vec![pt(1, 2), pt(3, 4)]);
    assert_eq!(p.n, 2);
    assert_eq!(p.points.len(), CIRCUIT_MAX_VERTICES);
    assert_eq!(p.points[0], pt(1, 2));
    assert_eq!(p.points[1], pt(3, 4));
    for i in 2..CIRCUIT_MAX_VERTICES {
        assert_eq!(p.points[i], pt(0, 0));
    }

    let many: Vec<Point2DDec> = (0..9).map(|i| pt(i, i)).collect();
    let p = polygon_from_vertices(&many);
    assert_eq!(p.n, CIRCUIT_MAX_VERTICES);
    assert_eq!(p.points.len(), CIRCUIT_MAX_VERTICES);
}

#[test]
fn empty_map_yields_no_match_and_false_flag() {
    let square = ccw_square_polygon();
    let inputs = build_circuit_inputs(&pt(50, 50), &square, &Vec::new());
    assert!(inputs.inside);
    assert!(!inputs.hash_match);
    assert!(!inputs.final_flag);
    assert_eq!(inputs.public_inputs.len(), 1 + CIRCUIT_MAX_POLYGON_HASHES);
    assert_eq!(inputs.public_inputs[0], fr_bytes(0));
    for i in 1..inputs.public_inputs.len() {
        assert_eq!(inputs.public_inputs[i], fr_bytes(0));
    }
}

#[test]
fn matching_cell_sets_flag() {
    let square = ccw_square_polygon();
    let map_hashes = hash_map_cells(&vec![ccw_square_polygon()]);
    let inputs = build_circuit_inputs(&pt(50, 50), &square, &map_hashes);
    assert!(inputs.inside);
    assert!(inputs.hash_match);
    assert!(inputs.final_flag);
    assert_eq!(inputs.public_inputs[0], fr_bytes(1));
    assert_eq!(inputs.public_inputs[1], map_hashes[0]);
    assert_eq!(inputs.public_inputs[2], fr_bytes(0));
}

#[test]
fn outside_point_with_matching_cell_keeps_flag_false() {
    let square = ccw_square_polygon();
    let map_hashes = hash_map_cells(&vec![ccw_square_polygon()]);
    let inputs = build_circuit_inputs(&pt(500, 50), &square, &map_hashes);
    assert!(!inputs.inside);
    assert!(inputs.hash_match);
    assert!(!inputs.final_flag);
    assert_eq!(inputs.public_inputs[0], fr_bytes(0));
}

#[test]
fn duplicate_map_entries_still_match() {
    let square = ccw_square_polygon();
    let cell = hash_cell_boundary(&square);
    let other = vec![0xabu8; 32];
    let map_hashes = vec![other.clone(), cell.clone(), cell.clone(), other];
    let inputs = build_circuit_inputs(&pt(50, 50), &square, &map_hashes);
    assert!(inputs.hash_match);
    assert!(inputs.final_flag);
}

#[test]
fn entries_beyond_capacity_are_ignored() {
    let square = ccw_square_polygon();
    let cell = hash_cell_boundary(&square);

    // The only matching entry sits just past the public-input capacity.
    let mut map_hashes: Vec<Vec<u8>> = (0..CIRCUIT_MAX_POLYGON_HASHES)
        .map(|i| vec![(i % 251) as u8; 32])
        .collect();
    map_hashes.push(cell.clone());
    let inputs = build_circuit_inputs(&pt(50, 50), &square, &map_hashes);
    assert!(inputs.inside);
    assert!(!inputs.hash_match);
    assert!(!inputs.final_flag);
    assert_eq!(inputs.public_inputs.len(), 1 + CIRCUIT_MAX_POLYGON_HASHES);

    // The same entry inside the capacity does match.
    let mut map_hashes: Vec<Vec<u8>> = (0..CIRCUIT_MAX_POLYGON_HASHES - 1)
        .map(|i| vec![(i % 251) as u8; 32])
        .collect();
    map_hashes.push(cell);
    let inputs = build_circuit_inputs(&pt(50, 50), &square, &map_hashes);
    assert!(inputs.hash_match);
    assert!(inputs.final_flag);
}

#[test]
fn encoded_public_inputs_match_standard_base64() {
    let square = ccw_square_polygon();
    let map_hashes = hash_map_cells(&vec![ccw_square_polygon()]);
    let inputs = build_circuit_inputs(&pt(50, 50), &square, &map_hashes);
    let encoded = encode_public_inputs(&inputs.public_inputs);
    assert_eq!(encoded.len(), inputs.public_inputs.len());
    for (e, raw) in encoded.iter().zip(inputs.public_inputs.iter()) {
        assert_eq!(*e, base64::engine::general_purpose::STANDARD.encode(raw));
    }
}

#[test]
fn flag_encoding_is_canonical_field_serialisation() {
    let square = ccw_square_polygon();
    let inputs = build_circuit_inputs(&pt(50, 50), &square, &Vec::new());
    let mut want = vec![0u8; 32];
    assert_eq!(inputs.public_inputs[0], want);
    let map_hashes = hash_map_cells(&vec![ccw_square_polygon()]);
    let inputs = build_circuit_inputs(&pt(50, 50), &square, &map_hashes);
    want[0] = 1;
    assert_eq!(inputs.public_inputs[0], want);
}
