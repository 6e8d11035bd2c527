use ark_bn254::Fr;
use ark_crypto_primitives::sponge::poseidon::{PoseidonConfig, PoseidonSponge, find_poseidon_ark_and_mds};
use ark_crypto_primitives::sponge::CryptographicSponge;
use ark_ff::PrimeField;
use ark_serialize::CanonicalSerialize;

use point_in_map::CIRCUIT_MAX_VERTICES;
use point_in_map::circuit::hash_polygon;
use point_in_map::fixed_point_decimal::Dec;
use point_in_map::point_2d::Point2DDec;

fn pt(x: i64, y: i64) -> Point2DDec {
    Point2DDec {
        x: Dec { val: x.unsigned_abs() as u128, neg: x < 0 },
        y: Dec { val: y.unsigned_abs() as u128, neg: y < 0 },
    }
}

fn poseidon_cfg() -> PoseidonConfig<Fr> {
    let (ark, mds) = find_poseidon_ark_and_mds::<Fr>(Fr::MODULUS_BIT_SIZE as u64, 3, 8, 31, 0);
    PoseidonConfig {
        full_rounds: 8,
        partial_rounds: 31,
        alpha: 17,
        ark,
        mds,
        rate: 2,
        capacity: 1,
    }
}

/// The reference commitment, computed directly with the Poseidon sponge: the
/// effective length, then magnitude and sign of each coordinate for all six
/// slots, zeros for inactive slots.
fn reference_commitment(poly: &[Point2DDec], n: usize) -> Vec<u8> {
    let cfg = poseidon_cfg();
    let mut sponge = PoseidonSponge::<Fr>::new(&cfg);
    sponge.absorb(&Fr::from(n as u64));
    for i in 0..CIRCUIT_MAX_VERTICES {
        if i < n {
            let v = &poly[i];
            sponge.absorb(&Fr::from(v.x.val));
            sponge.absorb(&if v.x.neg { Fr::from(1u64) } else { Fr::from(0u64) });
            sponge.absorb(&Fr::from(v.y.val));
            sponge.absorb(&if v.y.neg { Fr::from(1u64) } else { Fr::from(0u64) });
        } else {
            for _ in 0..4 {
                sponge.absorb(&Fr::from(0u64));
            }
        }
    }
    let out: Fr = sponge.squeeze_field_elements(1)[0];
    let mut buf = Vec::new();
    out.serialize_uncompressed(&mut buf).unwrap();
    buf
}

#[test]
fn commitment_matches_direct_poseidon_computation() {
    let poly = vec![pt(100, 0), pt(0, 100), pt(-100, 0), pt(0, -100), pt(0, 0), pt(0, 0)];
    let got = hash_polygon(&poly, 4);
    let want = reference_commitment(&poly, 4);
    assert_eq!(got, want);
    assert_eq!(got.len(), 32);
}

#[test]
fn commitment_depends_on_vertices() {
    let p1 = vec![pt(100, 0), pt(0, 100), pt(-100, 0), pt(0, 0), pt(0, 0), pt(0, 0)];
    let p2 = vec![pt(100, 0), pt(0, 100), pt(-100, 1), pt(0, 0), pt(0, 0), pt(0, 0)];
    assert_ne!(hash_polygon(&p1, 3), hash_polygon(&p2, 3));
}

#[test]
fn commitment_depends_on_signs() {
    let p1 = vec![pt(100, 50), pt(0, 100), pt(-100, 0), pt(0, 0), pt(0, 0), pt(0, 0)];
    let p2 = vec![pt(100, -50), pt(0, 100), pt(-100, 0), pt(0, 0), pt(0, 0), pt(0, 0)];
    assert_ne!(hash_polygon(&p1, 3), hash_polygon(&p2, 3));
}

#[test]
fn commitment_depends_on_effective_length() {
    let p = vec![pt(100, 0), pt(0, 100), pt(-100, 0), pt(0, 0), pt(0, 0), pt(0, 0)];
    assert_ne!(hash_polygon(&p, 3), hash_polygon(&p, 4));
}

#[test]
fn commitment_ignores_padding_beyond_effective_length() {
    let clean = vec![pt(100, 0), pt(0, 100), pt(-100, 0), pt(0, 0), pt(0, 0), pt(0, 0)];
    let dirty = vec![pt(100, 0), pt(0, 100), pt(-100, 0), pt(7, -9), pt(1, 1), pt(-2, 3)];
    assert_eq!(hash_polygon(&clean, 3), hash_polygon(&dirty, 3));
}
