use vstd::prelude::*;

use crate::CIRCUIT_MAX_POLYGON_HASHES;
use crate::CIRCUIT_MAX_VERTICES;
use crate::circuit::commitment_spec;
use crate::circuit::hash_polygon;
use crate::circuit::is_point_in_polygon;
use crate::circuit::pip_spec;
use crate::codec::b64_encode;
use crate::codec::b64_of;
use crate::codec::bytes_eq;
use crate::codec::fr_bytes_of;
use crate::codec::fr_to_bytes;
use crate::point_2d::Point2DDec;

verus! {

/// The H3 library hands out resolutions 0 through 15; anything else is a
/// bad request.
pub fn resolution_is_valid(resolution: u8) -> (r: bool)
    ensures
        r == (resolution <= 15),
{
    resolution <= 15
}

/// A fixed-capacity polygon buffer: exactly `CIRCUIT_MAX_VERTICES` slots, of
/// which the first `n` are effective; the rest hold the canonical zero point.
pub struct Polygon {
    pub points: Vec<Point2DDec>,
    pub n: usize,
}

impl Polygon {
    pub open spec fn wf(self) -> bool {
        &&& self.points@.len() == CIRCUIT_MAX_VERTICES
        &&& self.n <= CIRCUIT_MAX_VERTICES
        &&& forall|i: int|
            self.n <= i < CIRCUIT_MAX_VERTICES ==> self.points@[i] == Point2DDec::spec_zero()
    }

    /// This polygon's Poseidon commitment.
    pub open spec fn commitment(self) -> Seq<u8> {
        commitment_spec(self.points@, self.n as int)
    }
}

/// Fill a polygon buffer from a vertex list: keep the first
/// `CIRCUIT_MAX_VERTICES` vertices (clamping the effective length) and pad
/// the unused slots with the zero point.
pub fn polygon_from_vertices(vertices: &Vec<Point2DDec>) -> (r: Polygon)
    ensures
        r.wf(),
        r.n == if vertices@.len() < CIRCUIT_MAX_VERTICES {
            vertices@.len() as int
        } else {
            CIRCUIT_MAX_VERTICES as int
        },
        forall|i: int| 0 <= i < r.n ==> r.points@[i] == vertices@[i],
{
    let n = if vertices.len() < CIRCUIT_MAX_VERTICES {
        vertices.len()
    } else {
        CIRCUIT_MAX_VERTICES
    };
    let mut points: Vec<Point2DDec> = Vec::new();
    for i in 0..CIRCUIT_MAX_VERTICES
        invariant
            n <= vertices@.len(),
            n <= CIRCUIT_MAX_VERTICES,
            points@.len() == i,
            forall|j: int| 0 <= j < i && j < n ==> points@[j] == vertices@[j],
            forall|j: int| n <= j < i ==> points@[j] == Point2DDec::spec_zero(),
    {
        if i < n {
            points.push(vertices[i]);
        } else {
            points.push(Point2DDec::zero());
        }
    }
    Polygon { points, n }
}

/// Commit to one cell boundary.
pub fn hash_cell_boundary(poly: &Polygon) -> (r: Vec<u8>)
    requires
        poly.wf(),
    ensures
        r@ == poly.commitment(),
        r@.len() == 32,
        crate::codec::fr_parses(r@),
{
    hash_polygon(&poly.points, poly.n)
}

/// Commit to every authorised cell boundary, in order.
pub fn hash_map_cells(cells: &Vec<Polygon>) -> (r: Vec<Vec<u8>>)
    requires
        forall|i: int| 0 <= i < cells@.len() ==> (#[trigger] cells@[i]).wf(),
    ensures
        r@.len() == cells@.len(),
        forall|i: int| 0 <= i < r@.len() ==> (#[trigger] r@[i])@ == cells@[i].commitment(),
        forall|i: int| 0 <= i < r@.len() ==> crate::codec::fr_parses((#[trigger] r@[i])@),
{
    let mut out: Vec<Vec<u8>> = Vec::new();
    let m = cells.len();
    for i in 0..m
        invariant
            m == cells@.len(),
            forall|k: int| 0 <= k < cells@.len() ==> (#[trigger] cells@[k]).wf(),
            out@.len() == i,
            forall|k: int| 0 <= k < i ==> (#[trigger] out@[k])@ == cells@[k].commitment(),
            forall|k: int| 0 <= k < i ==> crate::codec::fr_parses((#[trigger] out@[k])@),
    {
        let h = hash_cell_boundary(&cells[i]);
        out.push(h);
    }
    out
}

/// Whether `target` occurs among the first `CIRCUIT_MAX_POLYGON_HASHES`
/// entries of `hashes` — entries beyond the public-input capacity never
/// contribute.
pub open spec fn match_in_prefix(hashes: Seq<Seq<u8>>, target: Seq<u8>) -> bool {
    exists|i: int|
        0 <= i < hashes.len() && i < CIRCUIT_MAX_POLYGON_HASHES && hashes[i] == target
}

/// The serialised public-input column: the in-map flag as a field element,
/// then the authorised-cell commitments truncated and zero-padded to exactly
/// `CIRCUIT_MAX_POLYGON_HASHES` entries.
pub open spec fn public_input_bytes(flag: bool, hashes: Seq<Seq<u8>>) -> Seq<Seq<u8>> {
    seq![
        fr_bytes_of(
            if flag {
                1u128
            } else {
                0u128
            },
        ),
    ] + Seq::new(
        CIRCUIT_MAX_POLYGON_HASHES as nat,
        |i: int|
            if i < hashes.len() {
                hashes[i]
            } else {
                fr_bytes_of(0u128)
            },
    )
}

/// Everything the prover needs beyond the private witness: the natively
/// evaluated flags and the serialised public-input column.
pub struct CircuitInputs {
    pub inside: bool,
    pub hash_match: bool,
    pub final_flag: bool,
    pub public_inputs: Vec<Vec<u8>>,
}

/// Evaluate the native predicates and assemble the public inputs for one
/// proving request: the point-in-polygon flag over the queried cell, the
/// match of that cell's commitment against the first
/// `CIRCUIT_MAX_POLYGON_HASHES` authorised commitments, their conjunction as
/// the in-map flag, and the flag-plus-commitments public-input column.
pub fn build_circuit_inputs(
    point: &Point2DDec,
    current: &Polygon,
    map_hashes: &Vec<Vec<u8>>,
) -> (r: CircuitInputs)
    requires
        current.wf(),
    ensures
        r.inside == pip_spec(*point, current.points@, current.n as int),
        r.hash_match == match_in_prefix(
            map_hashes@.map_values(|v: Vec<u8>| v@),
            current.commitment(),
        ),
        r.final_flag == (r.inside && r.hash_match),
        r.public_inputs@.map_values(|v: Vec<u8>| v@) == public_input_bytes(
            r.final_flag,
            map_hashes@.map_values(|v: Vec<u8>| v@),
        ),
        map_hashes@.len() == 0 ==> !r.final_flag,
        (forall|k: int|
            0 <= k < map_hashes@.len() ==> crate::codec::fr_parses((#[trigger] map_hashes@[k])@))
            ==> (forall|k: int|
            0 <= k < r.public_inputs@.len() ==> crate::codec::fr_parses(
                (#[trigger] r.public_inputs@[k])@,
            )),
{
    let ghost hashes_view = map_hashes@.map_values(|v: Vec<u8>| v@);
    let inside = is_point_in_polygon(point, &current.points, current.n);
    let cell_hash = hash_cell_boundary(current);

    let bound = if map_hashes.len() < CIRCUIT_MAX_POLYGON_HASHES {
        map_hashes.len()
    } else {
        CIRCUIT_MAX_POLYGON_HASHES
    };
    let mut hash_match = false;
    for i in 0..bound
        invariant
            bound <= map_hashes@.len(),
            bound <= CIRCUIT_MAX_POLYGON_HASHES,
            bound == if map_hashes@.len() < CIRCUIT_MAX_POLYGON_HASHES {
                map_hashes@.len() as int
            } else {
                CIRCUIT_MAX_POLYGON_HASHES as int
            },
            cell_hash@ == current.commitment(),
            hashes_view == map_hashes@.map_values(|v: Vec<u8>| v@),
            hash_match == exists|k: int| 0 <= k < i && hashes_view[k] == cell_hash@,
    {
        if bytes_eq(&map_hashes[i], &cell_hash) {
            proof {
                assert(hashes_view[i as int] == cell_hash@);
            }
            hash_match = true;
        }
    }
    proof {
        assert(hash_match == match_in_prefix(hashes_view, current.commitment()));
    }

    let final_flag = inside && hash_match;
    let flag_word: u128 = if final_flag {
        1
    } else {
        0
    };

    let mut public_inputs: Vec<Vec<u8>> = Vec::new();
    public_inputs.push(fr_to_bytes(flag_word));
    for j in 0..CIRCUIT_MAX_POLYGON_HASHES
        invariant
            hashes_view == map_hashes@.map_values(|v: Vec<u8>| v@),
            public_inputs@.len() == 1 + j,
            public_inputs@[0]@ == fr_bytes_of(flag_word),
            crate::codec::fr_parses(public_inputs@[0]@),
            forall|k: int|
                1 <= k < 1 + j && !(k - 1 < hashes_view.len()) ==> crate::codec::fr_parses(
                    (#[trigger] public_inputs@[k])@,
                ),
            forall|k: int|
                0 <= k < j ==> (#[trigger] public_inputs@[k + 1])@ == if k < hashes_view.len() {
                    hashes_view[k]
                } else {
                    fr_bytes_of(0u128)
                },
    {
        if j < map_hashes.len() {
            let entry = map_hashes[j].clone();
            assert(entry@ == hashes_view[j as int]);
            public_inputs.push(entry);
        } else {
            public_inputs.push(fr_to_bytes(0));
        }
    }
    proof {
        let pv = public_inputs@.map_values(|v: Vec<u8>| v@);
        let tgt = public_input_bytes(final_flag, hashes_view);
        assert forall|idx: int| 0 <= idx < pv.len() implies pv[idx] == tgt[idx] by {
            if idx > 0 {
                let k = idx - 1;
                assert(public_inputs@[k + 1]@ == if k < hashes_view.len() {
                    hashes_view[k]
                } else {
                    fr_bytes_of(0u128)
                });
            }
        }
        assert(public_inputs@.map_values(|v: Vec<u8>| v@) =~= public_input_bytes(
            final_flag,
            hashes_view,
        ));
        if forall|k: int|
            0 <= k < map_hashes@.len() ==> crate::codec::fr_parses(
                (#[trigger] map_hashes@[k])@,
            ) {
            assert forall|k: int| 0 <= k < public_inputs@.len() implies crate::codec::fr_parses(
                (#[trigger] public_inputs@[k])@,
            ) by {
                if k >= 1 && k - 1 < hashes_view.len() {
                    assert(public_inputs@[(k - 1) + 1]@ == hashes_view[k - 1]);
                    assert(crate::codec::fr_parses(map_hashes@[k - 1]@));
                }
            }
        }
    }

    CircuitInputs { inside, hash_match, final_flag, public_inputs }
}

/// Base64-encode each serialised public input, in order.  Each output
/// string is the canonical encoding of its input bytes and of nothing else.
pub fn encode_public_inputs(public_inputs: &Vec<Vec<u8>>) -> (r: Vec<String>)
    ensures
        r@.len() == public_inputs@.len(),
        forall|i: int| 0 <= i < r@.len() ==> (#[trigger] r@[i])@ == b64_of(public_inputs@[i]@),
        forall|i: int, u: Seq<u8>|
            #![trigger r@[i], b64_of(u)]
            0 <= i < r@.len() && r@[i]@ == b64_of(u) ==> u == public_inputs@[i]@,
{
    let mut out: Vec<String> = Vec::new();
    let m = public_inputs.len();
    for i in 0..m
        invariant
            m == public_inputs@.len(),
            out@.len() == i,
            forall|k: int| 0 <= k < i ==> (#[trigger] out@[k])@ == b64_of(public_inputs@[k]@),
            forall|k: int, u: Seq<u8>|
                #![trigger out@[k], b64_of(u)]
                0 <= k < i && out@[k]@ == b64_of(u) ==> u == public_inputs@[k]@,
    {
        out.push(b64_encode(&public_inputs[i]));
    }
    out
}

/// A commitment that occurs anywhere among the first
/// `CIRCUIT_MAX_POLYGON_HASHES` authorised entries — duplicates included —
/// makes the match succeed.
pub proof fn lemma_match_on_any_occurrence(hashes: Seq<Seq<u8>>, target: Seq<u8>, i: int)
    requires
        0 <= i < hashes.len(),
        i < CIRCUIT_MAX_POLYGON_HASHES,
        hashes[i] == target,
    ensures
        match_in_prefix(hashes, target),
{
}

} // verus!
