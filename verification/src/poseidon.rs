use vstd::prelude::*;

use ark_crypto_primitives::sponge::CryptographicSponge;
use ark_crypto_primitives::sponge::poseidon::PoseidonConfig;
use ark_crypto_primitives::sponge::poseidon::PoseidonSponge;
use ark_crypto_primitives::sponge::poseidon::find_poseidon_ark_and_mds;
use ark_ff::PrimeField;
use ark_serialize::CanonicalSerialize;

verus! {

/// The canonical 32-byte serialisation of the field element that the
/// library's fixed Poseidon sponge squeezes after absorbing `elems`
/// (each element taken into the BN254 scalar field).  Poseidon with fixed
/// parameters is a function of the absorbed sequence alone.
pub uninterp spec fn poseidon_of(elems: Seq<u128>) -> Seq<u8>;

/// Relies on ark_crypto_primitives' PoseidonSponge over the BN254 scalar
/// field, at width 3 (rate 2, capacity 1), alpha 17, 8 full and 31 partial
/// rounds, with round constants and MDS matrix derived deterministically by
/// find_poseidon_ark_and_mds from the field modulus; and on ark_serialize's
/// canonical 32-byte field-element encoding, which deserialisation accepts
/// back.  The digest depends on the absorbed elements alone.
#[verifier::external_body]
pub(crate) fn poseidon_hash_fixed(elems: &Vec<u128>) -> (r: Vec<u8>)
    ensures
        r@ == poseidon_of(elems@),
        r@.len() == 32,
        crate::codec::fr_parses(r@),
{
    let bits = <ark_bn254::Fr as PrimeField>::MODULUS_BIT_SIZE as u64;
    let (ark, mds) = find_poseidon_ark_and_mds::<ark_bn254::Fr>(bits, 3, 8, 31, 0);
    let cfg = PoseidonConfig { full_rounds: 8, partial_rounds: 31, alpha: 17, ark, mds, rate: 2, capacity: 1 };
    let mut sponge = PoseidonSponge::<ark_bn254::Fr>::new(&cfg);
    for e in elems.iter() {
        sponge.absorb(&ark_bn254::Fr::from(*e));
    }
    let out: ark_bn254::Fr = sponge.squeeze_field_elements(1)[0];
    let mut buf: Vec<u8> = Vec::new();
    out.serialize_uncompressed(&mut buf).unwrap();
    buf
}

} // verus!
