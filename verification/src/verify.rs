use vstd::prelude::*;

use ark_serialize::CanonicalDeserialize;

use crate::codec::b64_decode;
use crate::codec::b64_of;
use crate::codec::fr_parses;

verus! {

/// Whether a byte string deserialises (with curve and subgroup validation)
/// as a BN254 G1 point — a function of the bytes alone.
pub uninterp spec fn g1_parses(bytes: Seq<u8>) -> bool;

/// Whether a byte string deserialises (with curve and subgroup validation)
/// as a BN254 G2 point — a function of the bytes alone.
pub uninterp spec fn g2_parses(bytes: Seq<u8>) -> bool;

/// Whether a byte string deserialises as a prepared Groth16 verifying key
/// over BN254 — a function of the bytes alone.
pub uninterp spec fn pvk_parses(bytes: Seq<u8>) -> bool;

/// The outcome of the Groth16 pairing check on the deserialised prepared
/// verifying key, proof points and public inputs — a deterministic function
/// of the serialised arguments.
pub uninterp spec fn groth16_accepts(
    pvk: Seq<u8>,
    a: Seq<u8>,
    b: Seq<u8>,
    c: Seq<u8>,
    publics: Seq<Seq<u8>>,
) -> bool;

/// Relies on ark_serialize's `deserialize_uncompressed` for the BN254 G1
/// affine point: validation is a function of the bytes alone.
#[verifier::external_body]
fn g1_check_bytes(bytes: &Vec<u8>) -> (r: bool)
    ensures
        r == g1_parses(bytes@),
{
    ark_bn254::G1Affine::deserialize_uncompressed(bytes.as_slice()).is_ok()
}

/// Relies on ark_serialize's `deserialize_uncompressed` for the BN254 G2
/// affine point: validation is a function of the bytes alone.
#[verifier::external_body]
fn g2_check_bytes(bytes: &Vec<u8>) -> (r: bool)
    ensures
        r == g2_parses(bytes@),
{
    ark_bn254::G2Affine::deserialize_uncompressed(bytes.as_slice()).is_ok()
}

/// Relies on ark_serialize's `deserialize_uncompressed` for the BN254
/// scalar-field element: validation is a function of the bytes alone.
#[verifier::external_body]
fn fr_check_bytes(bytes: &Vec<u8>) -> (r: bool)
    ensures
        r == fr_parses(bytes@),
{
    ark_bn254::Fr::deserialize_uncompressed(bytes.as_slice()).is_ok()
}

/// Relies on ark_serialize's `deserialize_uncompressed` for ark_groth16's
/// prepared verifying key: validation is a function of the bytes alone.
#[verifier::external_body]
fn pvk_check_bytes(bytes: &Vec<u8>) -> (r: bool)
    ensures
        r == pvk_parses(bytes@),
{
    ark_groth16::PreparedVerifyingKey::<ark_bn254::Bn254>::deserialize_uncompressed(
        bytes.as_slice(),
    ).is_ok()
}

/// Relies on ark_groth16's `verify_proof` (the Groth16 pairing check) over
/// BN254, and on `deserialize_uncompressed` for its arguments, which the
/// `requires` clauses guarantee to succeed.  `verify_proof` succeeds on every
/// validly deserialised input: its input preparation has no failure path, and
/// the final exponentiation of the pairing product is always defined.  The
/// Boolean verdict is a deterministic function of the serialised arguments.
#[verifier::external_body]
fn groth16_verify_parsed(
    pvk_bytes: &Vec<u8>,
    a: &Vec<u8>,
    b: &Vec<u8>,
    c: &Vec<u8>,
    publics: &Vec<Vec<u8>>,
) -> (r: bool)
    requires
        pvk_parses(pvk_bytes@),
        g1_parses(a@),
        g2_parses(b@),
        g1_parses(c@),
        forall|i: int| 0 <= i < publics@.len() ==> fr_parses((#[trigger] publics@[i])@),
    ensures
        r == groth16_accepts(pvk_bytes@, a@, b@, c@, publics@.map_values(|x: Vec<u8>| x@)),
{
    let pvk = ark_groth16::PreparedVerifyingKey::<ark_bn254::Bn254>::deserialize_uncompressed(
        pvk_bytes.as_slice(),
    ).unwrap();
    let pa = ark_bn254::G1Affine::deserialize_uncompressed(a.as_slice()).unwrap();
    let pb = ark_bn254::G2Affine::deserialize_uncompressed(b.as_slice()).unwrap();
    let pc = ark_bn254::G1Affine::deserialize_uncompressed(c.as_slice()).unwrap();
    let mut xs: Vec<ark_bn254::Fr> = Vec::new();
    for p in publics.iter() {
        xs.push(ark_bn254::Fr::deserialize_uncompressed(p.as_slice()).unwrap());
    }
    let proof = ark_groth16::Proof::<ark_bn254::Bn254> { a: pa, b: pb, c: pc };
    ark_groth16::Groth16::<ark_bn254::Bn254>::verify_proof(&pvk, &proof, &xs).unwrap()
}

/// Everything that can go wrong before or during the pairing check, in the
/// order the request is examined.
#[derive(Clone, Copy, PartialEq, Eq, Structural, Debug)]
pub enum VerifyError {
    /// The prepared verifying key bytes do not deserialise.
    KeyFormat,
    /// `proof.a` is not canonical base64.
    ProofBase64A,
    /// `proof.a` decodes, but not to a valid G1 point.
    ProofPointA,
    /// `proof.b` is not canonical base64.
    ProofBase64B,
    /// `proof.b` decodes, but not to a valid G2 point.
    ProofPointB,
    /// `proof.c` is not canonical base64.
    ProofBase64C,
    /// `proof.c` decodes, but not to a valid G1 point.
    ProofPointC,
    /// Public input `i` is not canonical base64.
    InputBase64(usize),
    /// Public input `i` decodes, but not to a valid field element.
    InputField(usize),
}

/// `s` is a canonical base64 encoding of some byte string.
pub open spec fn valid_b64(s: Seq<char>) -> bool {
    exists|u: Seq<u8>| s == b64_of(u)
}

/// The byte string a canonical base64 string encodes (meaningful only when
/// `valid_b64` holds; the encoding is injective).
pub open spec fn b64_decoded(s: Seq<char>) -> Seq<u8> {
    choose|u: Seq<u8>| s == b64_of(u)
}

/// A proof element string decodes to a valid G1 point.
pub open spec fn g1_part_ok(s: Seq<char>) -> bool {
    valid_b64(s) && g1_parses(b64_decoded(s))
}

/// A proof element string decodes to a valid G2 point.
pub open spec fn g2_part_ok(s: Seq<char>) -> bool {
    valid_b64(s) && g2_parses(b64_decoded(s))
}

/// A public-input string decodes to a valid field element.
pub open spec fn input_ok(s: Seq<char>) -> bool {
    valid_b64(s) && fr_parses(b64_decoded(s))
}

/// All public-input strings decode to valid field elements.
pub open spec fn inputs_ok(ss: Seq<Seq<char>>) -> bool {
    forall|i: int| 0 <= i < ss.len() ==> input_ok(#[trigger] ss[i])
}

/// Check a Groth16 proof, handed as base64 strings, against the serialised
/// prepared verifying key and the base64-encoded public inputs.
///
/// The key, then `a`, `b`, `c`, then each public input in order, are decoded
/// and validated; the first fault is reported, exactly as the error variant
/// says.  On a well-formed request — and only then — the pairing check runs
/// and its Boolean verdict is returned: success is owed, a rejected proof is
/// the normal `Ok(false)`, never an error.
pub fn verify_proof_b64(
    pvk_bytes: &Vec<u8>,
    proof_a: &String,
    proof_b: &String,
    proof_c: &String,
    public_inputs_b64: &Vec<String>,
) -> (r: Result<bool, VerifyError>)
    ensures
        (r == Err::<bool, VerifyError>(VerifyError::KeyFormat)) <==> !pvk_parses(pvk_bytes@),
        (r == Err::<bool, VerifyError>(VerifyError::ProofBase64A)) <==> (pvk_parses(pvk_bytes@)
            && !valid_b64(proof_a@)),
        (r == Err::<bool, VerifyError>(VerifyError::ProofPointA)) <==> (pvk_parses(pvk_bytes@)
            && valid_b64(proof_a@) && !g1_parses(b64_decoded(proof_a@))),
        (r == Err::<bool, VerifyError>(VerifyError::ProofBase64B)) <==> (pvk_parses(pvk_bytes@)
            && g1_part_ok(proof_a@) && !valid_b64(proof_b@)),
        (r == Err::<bool, VerifyError>(VerifyError::ProofPointB)) <==> (pvk_parses(pvk_bytes@)
            && g1_part_ok(proof_a@) && valid_b64(proof_b@) && !g2_parses(b64_decoded(proof_b@))),
        (r == Err::<bool, VerifyError>(VerifyError::ProofBase64C)) <==> (pvk_parses(pvk_bytes@)
            && g1_part_ok(proof_a@) && g2_part_ok(proof_b@) && !valid_b64(proof_c@)),
        (r == Err::<bool, VerifyError>(VerifyError::ProofPointC)) <==> (pvk_parses(pvk_bytes@)
            && g1_part_ok(proof_a@) && g2_part_ok(proof_b@) && valid_b64(proof_c@) && !g1_parses(
            b64_decoded(proof_c@))),
        forall|i: usize|
            r == Err::<bool, VerifyError>(VerifyError::InputBase64(i)) ==> (pvk_parses(pvk_bytes@)
                && g1_part_ok(proof_a@) && g2_part_ok(proof_b@) && g1_part_ok(proof_c@) && i
                < public_inputs_b64@.len() && !valid_b64(public_inputs_b64@[i as int]@) && (forall|j: int|
                0 <= j < i ==> input_ok(#[trigger] public_inputs_b64@[j]@))),
        forall|i: usize|
            r == Err::<bool, VerifyError>(VerifyError::InputField(i)) ==> (pvk_parses(pvk_bytes@)
                && g1_part_ok(proof_a@) && g2_part_ok(proof_b@) && g1_part_ok(proof_c@) && i
                < public_inputs_b64@.len() && valid_b64(public_inputs_b64@[i as int]@)
                && !fr_parses(b64_decoded(public_inputs_b64@[i as int]@)) && (forall|j: int|
                0 <= j < i ==> input_ok(#[trigger] public_inputs_b64@[j]@))),
        (r is Ok) <==> (pvk_parses(pvk_bytes@) && g1_part_ok(proof_a@) && g2_part_ok(proof_b@)
            && g1_part_ok(proof_c@) && inputs_ok(public_inputs_b64@.map_values(|s: String| s@))),
        r matches Ok(v) ==> v == groth16_accepts(
            pvk_bytes@,
            b64_decoded(proof_a@),
            b64_decoded(proof_b@),
            b64_decoded(proof_c@),
            Seq::new(
                public_inputs_b64@.len(),
                |i: int| b64_decoded(public_inputs_b64@[i]@),
            ),
        ),
{
    if !pvk_check_bytes(pvk_bytes) {
        return Err(VerifyError::KeyFormat);
    }

    let da = match b64_decode(proof_a.as_str()) {
        Ok(v) => v,
        Err(_) => {
            return Err(VerifyError::ProofBase64A);
        },
    };
    proof {
        lemma_decoded_is(proof_a@, da@);
    }
    if !g1_check_bytes(&da) {
        return Err(VerifyError::ProofPointA);
    }

    let db = match b64_decode(proof_b.as_str()) {
        Ok(v) => v,
        Err(_) => {
            return Err(VerifyError::ProofBase64B);
        },
    };
    proof {
        lemma_decoded_is(proof_b@, db@);
    }
    if !g2_check_bytes(&db) {
        return Err(VerifyError::ProofPointB);
    }

    let dc = match b64_decode(proof_c.as_str()) {
        Ok(v) => v,
        Err(_) => {
            return Err(VerifyError::ProofBase64C);
        },
    };
    proof {
        lemma_decoded_is(proof_c@, dc@);
    }
    if !g1_check_bytes(&dc) {
        return Err(VerifyError::ProofPointC);
    }

    let ghost pub_views = public_inputs_b64@.map_values(|s: String| s@);
    let mut decoded: Vec<Vec<u8>> = Vec::new();
    let m = public_inputs_b64.len();
    for i in 0..m
        invariant
            m == public_inputs_b64@.len(),
            pub_views == public_inputs_b64@.map_values(|s: String| s@),
            pvk_parses(pvk_bytes@),
            g1_part_ok(proof_a@),
            g2_part_ok(proof_b@),
            g1_part_ok(proof_c@),
            da@ == b64_decoded(proof_a@),
            db@ == b64_decoded(proof_b@),
            dc@ == b64_decoded(proof_c@),
            decoded@.len() == i,
            forall|k: int| 0 <= k < i ==> input_ok(#[trigger] pub_views[k]),
            forall|k: int| 0 <= k < i ==> (#[trigger] decoded@[k])@ == b64_decoded(pub_views[k]),
    {
        let s = &public_inputs_b64[i];
        proof {
            assert(pub_views[i as int] == s@);
        }
        let dv = match b64_decode(s.as_str()) {
            Ok(v) => v,
            Err(_) => {
                proof {
                    assert(!inputs_ok(public_inputs_b64@.map_values(|t: String| t@))) by {
                        assert(!input_ok(pub_views[i as int]));
                    }
                    assert forall|j: int| 0 <= j < i implies input_ok(
                        #[trigger] public_inputs_b64@[j]@,
                    ) by {
                        assert(input_ok(pub_views[j]));
                    }
                }
                return Err(VerifyError::InputBase64(i));
            },
        };
        proof {
            lemma_decoded_is(pub_views[i as int], dv@);
        }
        if !fr_check_bytes(&dv) {
            proof {
                assert(!inputs_ok(public_inputs_b64@.map_values(|t: String| t@))) by {
                    assert(!input_ok(pub_views[i as int]));
                }
                assert forall|j: int| 0 <= j < i implies input_ok(
                    #[trigger] public_inputs_b64@[j]@,
                ) by {
                    assert(input_ok(pub_views[j]));
                }
            }
            return Err(VerifyError::InputField(i));
        }
        decoded.push(dv);
    }

    let verdict = groth16_verify_parsed(pvk_bytes, &da, &db, &dc, &decoded);
    proof {
        assert(Seq::new(
            public_inputs_b64@.len(),
            |i: int| b64_decoded(public_inputs_b64@[i]@),
        ) =~= decoded@.map_values(|x: Vec<u8>| x@)) by {
            assert forall|k: int| 0 <= k < decoded@.len() implies (#[trigger] decoded@[k])@
                == b64_decoded(public_inputs_b64@[k]@) by {
                assert(pub_views[k] == public_inputs_b64@[k]@);
            }
        }
    }
    Ok(verdict)
}

/// Public inputs as the prover emits them — canonical base64 encodings of
/// canonically serialised field elements — pass the verifier's decode and
/// validation stages, and decode back to exactly the prover's bytes: a
/// verification request built from a proving response always reaches the
/// pairing check.
pub proof fn lemma_prover_inputs_pass_decode(publics: Seq<Seq<u8>>, encoded: Seq<Seq<char>>)
    requires
        encoded.len() == publics.len(),
        forall|i: int| 0 <= i < encoded.len() ==> #[trigger] encoded[i] == b64_of(publics[i]),
        forall|i: int, u: Seq<u8>|
            #![trigger encoded[i], b64_of(u)]
            0 <= i < encoded.len() && encoded[i] == b64_of(u) ==> u == publics[i],
        forall|i: int| 0 <= i < publics.len() ==> fr_parses(#[trigger] publics[i]),
    ensures
        inputs_ok(encoded),
        forall|i: int| 0 <= i < encoded.len() ==> b64_decoded(#[trigger] encoded[i]) == publics[i],
{
    assert forall|i: int| 0 <= i < encoded.len() implies input_ok(#[trigger] encoded[i])
        && b64_decoded(encoded[i]) == publics[i] by {
        assert(encoded[i] == b64_of(publics[i]));
        assert(valid_b64(encoded[i]));
        let u = b64_decoded(encoded[i]);
        assert(encoded[i] == b64_of(u));
        assert(u == publics[i]);
    }
}

/// A canonical base64 string pins its preimage: whatever the decoder
/// returned is the one byte string the spec-level decode names.
proof fn lemma_decoded_is(s: Seq<char>, v: Seq<u8>)
    requires
        s == b64_of(v),
        forall|u: Seq<u8>| s == b64_of(u) ==> u == v,
    ensures
        valid_b64(s),
        b64_decoded(s) == v,
{
    assert(valid_b64(s));
    let u = b64_decoded(s);
    assert(s == b64_of(u));
}

} // verus!
