use sp1_to_snarkjs::error::Sp1ToSnarkjsError;
use sp1_to_snarkjs::field::field_to_decimal;
use sp1_to_snarkjs::load::{loaded_sp1_proof, MAX_PROOF_BYTES};
use sp1_to_snarkjs::sp1::{
    load_ark_groth16_verifying_key_from_bytes, sp1_groth16_proof_bytes, Groth16Bn254Proof, SP1Proof,
    SP1ProofWithPublicValues,
};

const FR_MODULUS: &str =
    "21888242871839275222246405745257275088548364400416034343698204186575808495617";

fn artifact(inputs: [&str; 5], meta: [Vec<u8>; 3]) -> SP1ProofWithPublicValues {
    let mut bytes = Vec::new();
    for word in meta {
        bytes.extend(word);
    }
    bytes.extend_from_slice(&[0x42u8; 256]);
    SP1ProofWithPublicValues::new(
        SP1Proof::Groth16(Groth16Bn254Proof {
            public_inputs: inputs.map(str::to_owned),
            encoded_proof: hex::encode(bytes),
            raw_proof: String::new(),
            groth16_vkey_hash: [0u8; 32],
        }),
        Vec::new(),
        "v6.1.0".to_owned(),
    )
}

fn be32(limbs: [u64; 4]) -> Vec<u8> {
    limbs.iter().rev().flat_map(|l| l.to_be_bytes()).collect()
}

#[test]
fn key_reader_ignores_g1_slots_and_trailing_bytes() {
    let vk = sp1_verifier::GROTH16_VK_BYTES.to_vec();
    let mut changed = vk.clone();
    for i in (32..64).chain(192..224) {
        changed[i] = 0xff;
    }
    changed.extend_from_slice(b"appended bytes");
    let a = load_ark_groth16_verifying_key_from_bytes(&vk).unwrap();
    let b = load_ark_groth16_verifying_key_from_bytes(&changed).unwrap();
    assert_eq!(a.alpha_g1, b.alpha_g1);
    assert_eq!(a.beta_g2, b.beta_g2);
    assert_eq!(a.gamma_g2, b.gamma_g2);
    assert_eq!(a.delta_g2, b.delta_g2);
    assert_eq!(a.gamma_abc_g1, b.gamma_abc_g1);
}

#[test]
fn shipped_key_has_six_ic_points_and_no_commitments() {
    let vk = sp1_verifier::GROTH16_VK_BYTES.to_vec();
    assert_eq!(vk.len(), 492);
    assert_eq!(vk[288..292], [0, 0, 0, 6]);
    assert_eq!(vk[484..488], [0, 0, 0, 0]);
}

#[test]
fn rendered_field_element_parses_back() {
    let limbs = [0x43e1f593f0000000u64, 0x2833e84879b97091, 0xb85045b68181585d, 0x30644e72e131a029];
    let rendered = field_to_decimal(limbs);
    assert_eq!(
        rendered,
        "21888242871839275222246405745257275088548364400416034343698204186575808495616"
    );
    let candidate = artifact(["1", "2", rendered.as_str(), "0", "7"], [be32(limbs), vec![0u8; 32], be32([7, 0, 0, 0])]);
    assert_eq!(sp1_groth16_proof_bytes(&candidate).unwrap(), vec![0x42u8; 256]);
}

#[test]
fn numerals_are_read_modulo_the_field_order() {
    let candidate = artifact(["1", "2", FR_MODULUS, "007", "0"], [vec![0u8; 32], be32([7, 0, 0, 0]), vec![0u8; 32]]);
    assert_eq!(sp1_groth16_proof_bytes(&candidate).unwrap(), vec![0x42u8; 256]);
}

fn model(version: &str, tee: Option<Vec<u8>>) -> SP1ProofWithPublicValues {
    let mut p = SP1ProofWithPublicValues::new(SP1Proof::Plonk, vec![1, 2, 3], version.to_owned());
    p.tee_proof = tee;
    p
}

#[test]
fn oversized_proof_file_is_refused() {
    let error = loaded_sp1_proof(MAX_PROOF_BYTES + 1, Ok(model("v6.1.0", None)), Err("x".to_owned())).unwrap_err();
    assert!(matches!(error, Sp1ToSnarkjsError::Sp1(m) if m == "proof file is larger than 16777216 bytes"));
}

#[test]
fn current_format_is_preferred() {
    let loaded = loaded_sp1_proof(MAX_PROOF_BYTES, Ok(model("current", Some(vec![9]))), Ok(model("network", None))).unwrap();
    assert_eq!(loaded.sp1_version, "current");
    assert_eq!(loaded.tee_proof, Some(vec![9]));
}

#[test]
fn network_format_is_the_fallback_without_tee_proof() {
    let loaded = loaded_sp1_proof(10, Err("bad".to_owned()), Ok(model("network", Some(vec![9])))).unwrap();
    assert_eq!(loaded.sp1_version, "network");
    assert_eq!(loaded.public_values, vec![1, 2, 3]);
    assert!(loaded.tee_proof.is_none());
}

#[test]
fn failed_decodings_report_the_current_format_error() {
    let error = loaded_sp1_proof(10, Err("first".to_owned()), Err("second".to_owned())).unwrap_err();
    assert!(matches!(error, Sp1ToSnarkjsError::Sp1(m) if m == "first"));
}
