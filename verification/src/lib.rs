//! Zero-knowledge geofencing core: a fixed-point signed-decimal algebra, a
//! point-in-convex-polygon predicate, Poseidon polygon commitments, and the
//! witness and public-input assembly for a Groth16 point-in-map circuit over
//! BN254.

pub mod circuit;
pub mod codec;
pub mod fixed_point_decimal;
pub mod point_2d;
pub mod poseidon;
pub mod prove;
pub mod verify;

use vstd::prelude::*;

verus! {

/// Fixed vertex capacity of a polygon buffer (H3 hexagon boundaries).
pub const CIRCUIT_MAX_VERTICES: usize = 6;

/// Decimal scale: coordinates carry `10^8` fixed-point precision.
pub const CIRCUIT_PRECISION: u32 = 8;

/// Fixed capacity of the public authorised-cell commitment list.
pub const CIRCUIT_MAX_POLYGON_HASHES: usize = 1024;

} // verus!
