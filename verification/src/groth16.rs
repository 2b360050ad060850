//! The calls into `sp1-verifier` and arkworks that load SP1's Groth16 verifying key
//! and proofs and check a proof.
use vstd::prelude::*;
use ark_bn254::{Bn254, Fr, G1Affine, G2Affine};
use ark_ff::{BigInt, PrimeField};
use ark_groth16::{prepare_verifying_key, Groth16};
use sp1_verifier::{load_ark_groth16_verifying_key_from_bytes, load_ark_proof_from_bytes};
use ark_snark::SNARK;
use crate::curve::{proof_from_gnark, G1Point, G2Point, Groth16Proof, Groth16VerifyingKey, VerifyingKeyView};
use crate::error::text_result;
use crate::field::is_fr;

verus! {

/// The gnark encoding of the Groth16 verifying key that `sp1-verifier` 6.3.1 ships
/// (`vk-artifacts/groth16_vk.bin`, 492 bytes).
pub open spec fn sp1_groth16_vk() -> Seq<u8> {
    seq![
        0xe1u8, 0xc7u8, 0xd7u8, 0x28u8, 0xa5u8, 0xfdu8, 0x96u8, 0x1fu8, 0xc1u8, 0x79u8, 0xecu8, 0x5eu8,
        0xabu8, 0x93u8, 0x8fu8, 0x56u8, 0x4du8, 0xebu8, 0xa5u8, 0xb2u8, 0x71u8, 0xe1u8, 0xc9u8, 0x0cu8,
        0x2cu8, 0x29u8, 0xa7u8, 0x96u8, 0x48u8, 0x41u8, 0x8fu8, 0xc1u8, 0x82u8, 0xe7u8, 0x8eu8, 0x21u8,
        0x6bu8, 0x27u8, 0xcbu8, 0x2bu8, 0x30u8, 0xabu8, 0xd2u8, 0x2du8, 0x17u8, 0xfbu8, 0x65u8, 0xb7u8,
        0x47u8, 0xadu8, 0x80u8, 0x50u8, 0xd1u8, 0x8eu8, 0x54u8, 0x34u8, 0x98u8, 0x52u8, 0x2du8, 0x01u8,
        0xa2u8, 0xc3u8, 0xfeu8, 0x79u8, 0xdcu8, 0x3cu8, 0x93u8, 0x39u8, 0x84u8, 0x92u8, 0x25u8, 0x98u8,
        0x0cu8, 0x7du8, 0x3fu8, 0x82u8, 0x4fu8, 0x80u8, 0xd1u8, 0x9eu8, 0x2au8, 0x9cu8, 0x25u8, 0x54u8,
        0xb6u8, 0xabu8, 0x21u8, 0x60u8, 0xfau8, 0x96u8, 0x35u8, 0x52u8, 0x8fu8, 0x69u8, 0x3fu8, 0xc0u8,
    ] + seq![
        0x0du8, 0x96u8, 0x45u8, 0x38u8, 0xdau8, 0x26u8, 0x53u8, 0xf2u8, 0xe6u8, 0x24u8, 0x99u8, 0x57u8,
        0x1eu8, 0x6cu8, 0x78u8, 0xafu8, 0xb8u8, 0x90u8, 0x9du8, 0x3eu8, 0xa8u8, 0x10u8, 0x7fu8, 0x30u8,
        0x6bu8, 0xd6u8, 0x92u8, 0x82u8, 0x53u8, 0x68u8, 0x0au8, 0x3au8, 0x99u8, 0x8eu8, 0x93u8, 0x93u8,
        0x92u8, 0x0du8, 0x48u8, 0x3au8, 0x72u8, 0x60u8, 0xbfu8, 0xb7u8, 0x31u8, 0xfbu8, 0x5du8, 0x25u8,
        0xf1u8, 0xaau8, 0x49u8, 0x33u8, 0x35u8, 0xa9u8, 0xe7u8, 0x12u8, 0x97u8, 0xe4u8, 0x85u8, 0xb7u8,
        0xaeu8, 0xf3u8, 0x12u8, 0xc2u8, 0x18u8, 0x00u8, 0xdeu8, 0xefu8, 0x12u8, 0x1fu8, 0x1eu8, 0x76u8,
        0x42u8, 0x6au8, 0x00u8, 0x66u8, 0x5eu8, 0x5cu8, 0x44u8, 0x79u8, 0x67u8, 0x43u8, 0x22u8, 0xd4u8,
        0xf7u8, 0x5eu8, 0xdau8, 0xddu8, 0x46u8, 0xdeu8, 0xbdu8, 0x5cu8, 0xd9u8, 0x92u8, 0xf6u8, 0xedu8,
    ] + seq![
        0xd7u8, 0xe0u8, 0x0bu8, 0x2cu8, 0xa4u8, 0xf6u8, 0x26u8, 0x68u8, 0x13u8, 0x50u8, 0x17u8, 0xedu8,
        0x8au8, 0x68u8, 0x89u8, 0x4eu8, 0x10u8, 0x4au8, 0xc2u8, 0x6du8, 0xfdu8, 0x9bu8, 0xf3u8, 0x76u8,
        0x63u8, 0x4bu8, 0x42u8, 0xafu8, 0x9eu8, 0x5au8, 0xe5u8, 0x0eu8, 0x91u8, 0xb7u8, 0xe9u8, 0x27u8,
        0x61u8, 0x71u8, 0xbbu8, 0x0eu8, 0xfdu8, 0x64u8, 0x7fu8, 0xc6u8, 0x3eu8, 0x38u8, 0xbbu8, 0xfbu8,
        0xa3u8, 0x07u8, 0x6fu8, 0x20u8, 0xdau8, 0xcau8, 0x8cu8, 0xd5u8, 0x2bu8, 0xccu8, 0x72u8, 0x84u8,
        0xd9u8, 0xb1u8, 0xc6u8, 0xebu8, 0x17u8, 0x23u8, 0x61u8, 0x65u8, 0x33u8, 0xddu8, 0x6au8, 0xe5u8,
        0x35u8, 0x02u8, 0xc9u8, 0xc5u8, 0x06u8, 0xa8u8, 0x1fu8, 0x23u8, 0xf5u8, 0x43u8, 0xd6u8, 0x87u8,
        0x50u8, 0xb5u8, 0x13u8, 0x3eu8, 0xbfu8, 0xbeu8, 0x1fu8, 0x47u8, 0x46u8, 0xb3u8, 0xb0u8, 0x11u8,
    ] + seq![
        0x00u8, 0x00u8, 0x00u8, 0x06u8, 0xacu8, 0xd6u8, 0xbfu8, 0x7fu8, 0x16u8, 0x4au8, 0xf0u8, 0xb6u8,
        0xb0u8, 0xbbu8, 0xbeu8, 0x0fu8, 0xdcu8, 0xb0u8, 0x6eu8, 0xe0u8, 0xc1u8, 0xbau8, 0x07u8, 0xf8u8,
        0xe6u8, 0xebu8, 0x2fu8, 0x9fu8, 0x39u8, 0x43u8, 0xa9u8, 0x0cu8, 0xb1u8, 0xd4u8, 0x02u8, 0x90u8,
        0x8fu8, 0x54u8, 0x60u8, 0xf3u8, 0xb7u8, 0x22u8, 0x17u8, 0x05u8, 0x43u8, 0x5eu8, 0x74u8, 0x5du8,
        0xa2u8, 0x1eu8, 0x27u8, 0x65u8, 0x36u8, 0x37u8, 0x9cu8, 0x01u8, 0x13u8, 0xc1u8, 0x3cu8, 0x42u8,
        0x55u8, 0xe7u8, 0xaeu8, 0x10u8, 0x1fu8, 0x1eu8, 0x90u8, 0xbfu8, 0x8bu8, 0x0au8, 0xe6u8, 0xe4u8,
        0x91u8, 0xbcu8, 0x04u8, 0xc5u8, 0x44u8, 0xdau8, 0x9eu8, 0x8cu8, 0xd4u8, 0x85u8, 0x7du8, 0x20u8,
        0x1bu8, 0x4cu8, 0xfau8, 0x02u8, 0x22u8, 0xdbu8, 0xe9u8, 0x6au8, 0xacu8, 0x97u8, 0xf0u8, 0x44u8,
    ] + seq![
        0xfdu8, 0xf1u8, 0xc9u8, 0x22u8, 0xc9u8, 0x7cu8, 0x87u8, 0x5au8, 0x6eu8, 0xbdu8, 0x09u8, 0x99u8,
        0xb0u8, 0x6eu8, 0x72u8, 0x67u8, 0xffu8, 0x3du8, 0x8au8, 0x6bu8, 0xf8u8, 0x59u8, 0xbbu8, 0x96u8,
        0x35u8, 0xabu8, 0xaeu8, 0x07u8, 0xcbu8, 0x6bu8, 0x35u8, 0x34u8, 0xbau8, 0x40u8, 0x9au8, 0x83u8,
        0x98u8, 0x07u8, 0x20u8, 0x4du8, 0xdcu8, 0xd2u8, 0x75u8, 0x06u8, 0xbau8, 0x72u8, 0xe1u8, 0x7bu8,
        0x55u8, 0x22u8, 0x7bu8, 0x0bu8, 0xf3u8, 0x10u8, 0x13u8, 0x6eu8, 0xcbu8, 0x40u8, 0xc7u8, 0x4au8,
        0xcdu8, 0x52u8, 0xf3u8, 0xccu8, 0xfbu8, 0xcbu8, 0xa9u8, 0xf7u8, 0x80u8, 0x8cu8, 0x7bu8, 0x7cu8,
        0x98u8, 0xd7u8, 0x8cu8, 0x07u8, 0xa2u8, 0xc4u8, 0xbeu8, 0x5fu8, 0x6bu8, 0xe7u8, 0x08u8, 0x2bu8,
        0xa4u8, 0x10u8, 0x21u8, 0x61u8, 0x1fu8, 0x9au8, 0x2du8, 0xfcu8, 0x01u8, 0x6fu8, 0x8bu8, 0xbbu8,
    ] + seq![
        0x37u8, 0xd3u8, 0x6bu8, 0xeeu8, 0x00u8, 0x00u8, 0x00u8, 0x00u8, 0x00u8, 0x00u8, 0x00u8, 0x00u8,
    ]
}

/// The gnark encoding of the Groth16 verifying key that SP1 ships
/// (`sp1_verifier::GROTH16_VK_BYTES`). Claimed of the outside code: the bytes are
/// those of the file that `sp1-verifier` includes with `include_bytes!`, which the
/// spec function above holds.
#[verifier::external_body]
pub(crate) fn sp1_groth16_vk_bytes() -> (r: Vec<u8>)
    ensures
        r@ == sp1_groth16_vk(),
{
    sp1_verifier::GROTH16_VK_BYTES.to_vec()
}

/// What `load_ark_proof_from_bytes` gives for gnark proof bytes: the
/// proof, or the text of the error.
pub uninterp spec fn sp1_ark_proof(bytes: Seq<u8>) -> Result<Groth16Proof, Seq<char>>;

/// What `load_ark_groth16_verifying_key_from_bytes` gives for gnark key
/// bytes: the key, or the text of the error.
pub uninterp spec fn sp1_ark_vk(bytes: Seq<u8>) -> Result<VerifyingKeyView, Seq<char>>;

/// What arkworks' Groth16 verification over BN254 answers for the key and proof that
/// `sp1-verifier` loads from gnark bytes and the given public inputs: `Some(accepted)`,
/// or `None` when a load or the verification itself fails.
pub uninterp spec fn groth16_verification(vk_bytes: Seq<u8>, public_inputs: Seq<[u64; 4]>, proof_bytes: Seq<u8>) -> Option<bool>;

/// A loaded key with its list of points taken as a sequence.
pub open spec fn vk_result_view(r: Result<Groth16VerifyingKey, String>) -> Result<VerifyingKeyView, Seq<char>> {
    match r {
        Ok(k) => Ok(k@),
        Err(m) => Err(m@),
    }
}

/// Loads a gnark-encoded Groth16 proof with `load_ark_proof_from_bytes`
/// and hands back the canonical integers of its points' coordinates, or the error's
/// text. Claimed of the outside code: the outcome is the same for the same bytes;
/// proofs of any length but 256 bytes are refused (the function checks the length
/// first); and a loaded proof's points are the ones in the bytes: each gnark
/// coordinate chunk is reversed into arkworks' little-endian order, all-zero points
/// give the point at infinity, and the others are read uncompressed with validation
/// (so their coordinates are the big-endian integers of the gnark chunks, the flag
/// bits cleared). Which proofs load is left unsaid.
#[verifier::external_body]
pub(crate) fn sp1_load_ark_proof(bytes: &[u8]) -> (r: Result<Groth16Proof, String>)
    ensures
        text_result(r) == sp1_ark_proof(bytes@),
        bytes@.len() != 256 ==> r is Err,
        r matches Ok(p) ==> proof_from_gnark(p, bytes@),
{
    let g1 = |p: G1Affine| G1Point { x: p.x.into_bigint().0, y: p.y.into_bigint().0, infinity: p.infinity };
    let g2 = |p: G2Affine| G2Point { x_c0: p.x.c0.into_bigint().0, x_c1: p.x.c1.into_bigint().0, y_c0: p.y.c0.into_bigint().0, y_c1: p.y.c1.into_bigint().0, infinity: p.infinity };
    match load_ark_proof_from_bytes(bytes) {
        Ok(p) => Ok(Groth16Proof { a: g1(p.a), b: g2(p.b), c: g1(p.c) }),
        Err(e) => Err(format!("{e}")),
    }
}

/// Loads a gnark-encoded Groth16 verifying key with
/// `load_ark_groth16_verifying_key_from_bytes` and hands back the
/// canonical integers of its points' coordinates, or the error's text. Claimed of the
/// outside code: the outcome is the same for the same bytes, and keys shorter than
/// 292 bytes are refused (the function checks that first). Which keys load, and to
/// which points, is left unsaid.
#[verifier::external_body]
pub(crate) fn sp1_load_ark_vk(bytes: &[u8]) -> (r: Result<Groth16VerifyingKey, String>)
    ensures
        vk_result_view(r) == sp1_ark_vk(bytes@),
        bytes@.len() < 292 ==> r is Err,
{
    let g1 = |p: G1Affine| G1Point { x: p.x.into_bigint().0, y: p.y.into_bigint().0, infinity: p.infinity };
    let g2 = |p: G2Affine| G2Point { x_c0: p.x.c0.into_bigint().0, x_c1: p.x.c1.into_bigint().0, y_c0: p.y.c0.into_bigint().0, y_c1: p.y.c1.into_bigint().0, infinity: p.infinity };
    match load_ark_groth16_verifying_key_from_bytes(bytes) {
        Ok(k) => Ok(Groth16VerifyingKey { alpha_g1: g1(k.alpha_g1), beta_g2: g2(k.beta_g2), gamma_g2: g2(k.gamma_g2), delta_g2: g2(k.delta_g2), gamma_abc_g1: k.gamma_abc_g1.into_iter().map(g1).collect() }),
        Err(e) => Err(format!("{e}")),
    }
}

/// Checks a Groth16 proof with arkworks (`prepare_verifying_key`, then
/// `Groth16::<Bn254>::verify_with_processed_vk`), the key and proof loaded from their gnark bytes by
/// `sp1-verifier` and the public inputs taken as elements of Fr from their canonical
/// integers. Answers `None` when a load or the verification fails, else whether the
/// proof is accepted. Claimed of the outside code: the answer is the same for the same
/// bytes and inputs; nothing is claimed of which proofs are accepted.
#[verifier::external_body]
pub(crate) fn groth16_verify(vk_bytes: &[u8], public_inputs: &Vec<[u64; 4]>, proof_bytes: &[u8]) -> (r: Option<bool>)
    requires
        forall|i: int| 0 <= i < public_inputs@.len() ==> is_fr(#[trigger] public_inputs@[i]),
    ensures
        r == groth16_verification(vk_bytes@, public_inputs@, proof_bytes@),
{
    let vk = load_ark_groth16_verifying_key_from_bytes(vk_bytes).ok()?;
    let proof = load_ark_proof_from_bytes(proof_bytes).ok()?;
    let inputs: Vec<Fr> = public_inputs.iter().map(|l| Fr::new(BigInt::new(*l))).collect();
    Groth16::<Bn254>::verify_with_processed_vk(&prepare_verifying_key(&vk), &inputs, &proof).ok()
}

} // verus!
