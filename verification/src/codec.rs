use vstd::prelude::*;

use ark_serialize::CanonicalSerialize;
use base64::Engine;

verus! {

/// The standard (RFC 4648, padded) base64 encoding of a byte sequence.
pub uninterp spec fn b64_of(bytes: Seq<u8>) -> Seq<char>;

/// Relies on base64's STANDARD engine: padded encoding, a function of the
/// input bytes alone, and injective — its strict decoder inverts it.
#[verifier::external_body]
pub(crate) fn b64_encode(bytes: &Vec<u8>) -> (r: String)
    ensures
        r@ == b64_of(bytes@),
        forall|u: Seq<u8>| r@ == b64_of(u) ==> u == bytes@,
{
    base64::engine::general_purpose::STANDARD.encode(bytes.as_slice())
}

/// Relies on base64's STANDARD engine decode, which requires canonical
/// padding and rejects trailing bits: it accepts exactly the strings the
/// encoder produces, and inverts it.
#[verifier::external_body]
pub(crate) fn b64_decode(s: &str) -> (r: Result<Vec<u8>, ()>)
    ensures
        r matches Ok(v) ==> s@ == b64_of(v@),
        r matches Ok(v) ==> forall|u: Seq<u8>| s@ == b64_of(u) ==> u == v@,
        (exists|u: Seq<u8>| s@ == b64_of(u)) ==> r is Ok,
{
    base64::engine::general_purpose::STANDARD.decode(s).map_err(|_| ())
}

/// The canonical 32-byte serialisation of the BN254 scalar-field element
/// with the given nonnegative integer value.
pub uninterp spec fn fr_bytes_of(v: u128) -> Seq<u8>;

/// Whether a byte string deserialises (with validation) as a BN254
/// scalar-field element — a function of the bytes alone.
pub uninterp spec fn fr_parses(bytes: Seq<u8>) -> bool;

/// Relies on ark_bn254's `Fr::from` and ark_serialize's canonical
/// field-element encoding: 32 little-endian bytes, a function of `v` alone,
/// which deserialisation accepts.
#[verifier::external_body]
pub(crate) fn fr_to_bytes(v: u128) -> (r: Vec<u8>)
    ensures
        r@ == fr_bytes_of(v),
        r@.len() == 32,
        fr_parses(r@),
{
    let f = ark_bn254::Fr::from(v);
    let mut buf: Vec<u8> = Vec::new();
    f.serialize_uncompressed(&mut buf).unwrap();
    buf
}

/// Compare two byte strings.
pub fn bytes_eq(a: &Vec<u8>, b: &Vec<u8>) -> (r: bool)
    ensures
        r == (a@ == b@),
{
    if a.len() != b.len() {
        return false;
    }
    let n = a.len();
    for i in 0..n
        invariant
            n == a@.len() == b@.len(),
            forall|j: int| 0 <= j < i ==> a@[j] == b@[j],
    {
        if a[i] != b[i] {
            return false;
        }
    }
    proof {
        assert(a@ =~= b@);
    }
    true
}

} // verus!
