use sp1_to_snarkjs::curve::G1Point;
use sp1_to_snarkjs::error::{HexError, Sp1ToSnarkjsError};
use sp1_to_snarkjs::sp1::{
    load_ark_groth16_verifying_key_from_bytes, load_ark_proof_from_bytes, sp1_groth16_proof_bytes,
    sp1_groth16_public_inputs, Groth16Bn254Proof, SP1Proof, SP1ProofWithPublicValues,
};

const INPUTS: [&str; 5] = ["1", "2", "3", "4", "5"];

fn encoded_proof() -> String {
    let mut bytes = Vec::with_capacity(352);
    for value in [3u8, 4, 5] {
        bytes.extend_from_slice(&[0u8; 31]);
        bytes.push(value);
    }
    bytes.extend_from_slice(&[0xabu8; 256]);
    hex::encode(bytes)
}

fn artifact(encoded_proof: String) -> SP1ProofWithPublicValues {
    SP1ProofWithPublicValues::new(
        SP1Proof::Groth16(Groth16Bn254Proof {
            public_inputs: INPUTS.map(str::to_owned),
            encoded_proof,
            raw_proof: String::new(),
            groth16_vkey_hash: [0u8; 32],
        }),
        Vec::new(),
        "v6.1.0".to_owned(),
    )
}

#[test]
fn decodes_bundled_groth16_verifying_key() {
    let vk = load_ark_groth16_verifying_key_from_bytes(*sp1_verifier::GROTH16_VK_BYTES).unwrap();

    assert_eq!(vk.gamma_abc_g1.len(), 6);
}

#[test]
fn decodes_zero_gnark_proof_shape() {
    let loaded = load_ark_proof_from_bytes(&[0; 256]).unwrap();

    assert!(loaded.a.infinity);
    assert!(loaded.b.infinity);
    assert!(loaded.c.infinity);
    assert_eq!(loaded.a, G1Point::zero());
}

#[test]
fn exposes_all_five_sp1_public_inputs() {
    let actual = sp1_groth16_public_inputs(&artifact(encoded_proof())).unwrap();
    let expected = INPUTS.map(str::to_owned).to_vec();

    assert_eq!(actual, expected);
}

#[test]
fn extracts_only_the_256_byte_groth16_proof() {
    let actual = sp1_groth16_proof_bytes(&artifact(encoded_proof())).unwrap();

    assert_eq!(actual, vec![0xabu8; 256]);
}

#[test]
fn rejects_empty_mock_groth16_proof() {
    let error = sp1_groth16_proof_bytes(&artifact(String::new())).unwrap_err();

    assert!(matches!(error, Sp1ToSnarkjsError::MockProof));
}

#[test]
fn rejects_unsupported_sp1_version() {
    let mut candidate = artifact(encoded_proof());
    candidate.sp1_version = "6.3.1".to_owned();

    let error = sp1_groth16_proof_bytes(&candidate).unwrap_err();

    assert!(matches!(
        error,
        Sp1ToSnarkjsError::UnsupportedSp1Version { actual }
            if actual == "6.3.1"
    ));
}

#[test]
fn rejects_tee_prefixed_proof() {
    let mut candidate = artifact(encoded_proof());
    candidate.tee_proof = Some(vec![1, 2, 3]);

    let error = sp1_groth16_proof_bytes(&candidate).unwrap_err();

    assert!(matches!(error, Sp1ToSnarkjsError::TeeProofUnsupported));
}

#[test]
fn rejects_non_hex_encoded_proof_at_the_expected_length() {
    let error = sp1_groth16_proof_bytes(&artifact("g".repeat(704))).unwrap_err();

    assert!(matches!(error, Sp1ToSnarkjsError::Hex(_)));
    assert!(matches!(
        error,
        Sp1ToSnarkjsError::Hex(HexError::InvalidHexCharacter { c: 'g', index: 0 })
    ));
}

#[test]
fn rejects_wrong_encoded_proof_length() {
    let error = sp1_groth16_proof_bytes(&artifact(hex::encode([0u8; 351]))).unwrap_err();

    assert!(matches!(
        error,
        Sp1ToSnarkjsError::InvalidEncodedProofLength {
            actual: 702,
            expected: 704
        }
    ));
}

#[test]
fn rejects_encoded_metadata_that_disagrees_with_public_inputs() {
    let mut encoded = encoded_proof();
    encoded.replace_range(0..2, "ff");

    let error = sp1_groth16_proof_bytes(&artifact(encoded)).unwrap_err();

    assert!(matches!(error, Sp1ToSnarkjsError::EncodedMetadataMismatch));
}
