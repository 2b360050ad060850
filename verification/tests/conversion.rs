use ark_ec::AffineRepr;
use ark_ff::PrimeField;
use sp1_to_snarkjs::curve::{G1Point, G2Point, Groth16Proof};
use sp1_to_snarkjs::error::{HexError, Sp1ToSnarkjsError};
use sp1_to_snarkjs::export::{convert_sp1_proof, convert_sp1_proof_file, convert_sp1_proof_with_vk};
use sp1_to_snarkjs::field::{field_to_decimal, limbs_to_bytes_be};
use sp1_to_snarkjs::snarkjs::{g1_to_snarkjs, g2_to_snarkjs, SnarkJsProof, SnarkJsVerificationKey};
use sp1_to_snarkjs::sp1::{
    compressed_g1, gnark_compressed_to_ark, load_ark_groth16_verifying_key_from_bytes,
    load_ark_proof_from_bytes, read_u32, sp1_groth16_proof_bytes, sp1_groth16_public_inputs, take,
    uncompressed_g1, Groth16Bn254Proof, SP1Proof, SP1ProofWithPublicValues,
};

fn word(value: u8) -> Vec<u8> {
    let mut w = vec![0u8; 31];
    w.push(value);
    w
}

fn encoded(meta: [u8; 3], proof: &[u8]) -> String {
    let mut bytes = Vec::new();
    for v in meta {
        bytes.extend(word(v));
    }
    bytes.extend_from_slice(proof);
    hex::encode(bytes)
}

fn groth16(inputs: [&str; 5], encoded_proof: String) -> SP1ProofWithPublicValues {
    SP1ProofWithPublicValues::new(
        SP1Proof::Groth16(Groth16Bn254Proof {
            public_inputs: inputs.map(str::to_owned),
            encoded_proof,
            raw_proof: String::new(),
            groth16_vkey_hash: [0u8; 32],
        }),
        Vec::new(),
        "v6.1.0".to_owned(),
    )
}

fn ark_message(e: Sp1ToSnarkjsError) -> String {
    match e {
        Sp1ToSnarkjsError::ArkConversion(m) => m,
        other => panic!("expected an arkworks conversion error, got {other:?}"),
    }
}

fn bundled_vk() -> Vec<u8> {
    sp1_verifier::GROTH16_VK_BYTES.to_vec()
}

#[test]
fn gnark_flags_map_to_arkworks_flags() {
    let mut positive = vec![0x80u8 | 0x05];
    positive.extend(vec![0x11u8; 31]);
    let out = gnark_compressed_to_ark(&positive).unwrap();
    assert_eq!(out.len(), 32);
    assert_eq!(out[31], 0x05);
    assert!(out[..31].iter().all(|b| *b == 0x11));

    let mut negative = vec![0xc0u8 | 0x3f];
    negative.extend(vec![0u8; 63]);
    let out = gnark_compressed_to_ark(&negative).unwrap();
    assert_eq!(out.len(), 64);
    assert_eq!(out[63], 0x80 | 0x3f);

    let mut infinity = vec![0x40u8];
    infinity.extend(vec![0u8; 31]);
    assert_eq!(gnark_compressed_to_ark(&infinity).unwrap()[31], 0x40);
}

#[test]
fn gnark_conversion_rejects_bad_flag_and_length() {
    let mut unflagged = vec![0x00u8];
    unflagged.extend(vec![0u8; 31]);
    assert_eq!(ark_message(gnark_compressed_to_ark(&unflagged).unwrap_err()), "invalid gnark point flag");
    assert_eq!(
        ark_message(gnark_compressed_to_ark(&[0x80u8; 33]).unwrap_err()),
        "invalid compressed point length"
    );
}

#[test]
fn take_moves_the_offset_only_on_success() {
    let buffer = [1u8, 2, 3, 4, 5];
    let mut offset = 1;
    assert_eq!(take(&buffer, &mut offset, 3).unwrap(), &[2, 3, 4]);
    assert_eq!(offset, 4);
    assert_eq!(ark_message(take(&buffer, &mut offset, 2).unwrap_err()), "truncated point data");
    assert_eq!(offset, 4);
    let mut huge = usize::MAX;
    assert_eq!(ark_message(take(&buffer, &mut huge, 1).unwrap_err()), "point-data length overflow");
    assert_eq!(huge, usize::MAX);
}

#[test]
fn read_u32_is_big_endian() {
    let buffer = [0xffu8, 0x01, 0x02, 0x03, 0x04];
    let mut offset = 1;
    assert_eq!(read_u32(&buffer, &mut offset).unwrap(), 0x0102_0304);
    assert_eq!(offset, 5);
    assert!(read_u32(&buffer, &mut offset).is_err());
    assert_eq!(offset, 5);
}

#[test]
fn field_integers_render_in_decimal() {
    assert_eq!(field_to_decimal([0, 0, 0, 0]), "0");
    assert_eq!(field_to_decimal([5, 0, 0, 0]), "5");
    assert_eq!(field_to_decimal([0, 1, 0, 0]), "18446744073709551616");
}

#[test]
fn limbs_render_big_endian() {
    let bytes = limbs_to_bytes_be(&[0x0102, 0, 0, 0xff00_0000_0000_0000]);
    assert_eq!(bytes.len(), 32);
    assert_eq!(bytes[0], 0xff);
    assert_eq!(bytes[30], 0x01);
    assert_eq!(bytes[31], 0x02);
    assert!(bytes[1..30].iter().all(|b| *b == 0));
}

#[test]
fn points_at_infinity_render_as_snarkjs_expects() {
    assert_eq!(g1_to_snarkjs(&G1Point::zero()), ["0", "1", "0"]);
    assert_eq!(g2_to_snarkjs(&G2Point::zero()), [["0", "0"], ["1", "0"], ["0", "0"]]);
    let p = G1Point { x: [1, 0, 0, 0], y: [2, 0, 0, 0], infinity: false };
    assert_eq!(g1_to_snarkjs(&p), ["1", "2", "1"]);
    let q = G2Point { x_c0: [1, 0, 0, 0], x_c1: [2, 0, 0, 0], y_c0: [3, 0, 0, 0], y_c1: [4, 0, 0, 0], infinity: false };
    assert_eq!(g2_to_snarkjs(&q), [["1", "2"], ["3", "4"], ["1", "0"]]);
}

#[test]
fn proof_renders_with_protocol_and_curve() {
    let proof = Groth16Proof { a: G1Point::zero(), b: G2Point::zero(), c: G1Point::zero() };
    let rendered = SnarkJsProof::from(&proof);
    assert_eq!(rendered.protocol, "groth16");
    assert_eq!(rendered.curve, "bn128");
    assert_eq!(rendered.pi_a, ["0", "1", "0"]);
    assert_eq!(rendered.pi_c, ["0", "1", "0"]);
}

#[test]
fn bundled_key_renders_with_six_ic_points() {
    let vk = load_ark_groth16_verifying_key_from_bytes(&bundled_vk()).unwrap();
    let rendered = SnarkJsVerificationKey::from_ark_vk(&vk, 5);
    assert_eq!(rendered.n_public, 5);
    assert_eq!(rendered.ic.len(), 6);
    assert_eq!(rendered.vk_alpha_1[2], "1");
    assert!(!vk.alpha_g1.infinity);
    assert_eq!(rendered.vk_alpha_1[0], field_to_decimal(vk.alpha_g1.x));
}

#[test]
fn verifying_key_reader_reports_truncation() {
    let vk = bundled_vk();
    assert_eq!(
        ark_message(load_ark_groth16_verifying_key_from_bytes(&vk[..291]).unwrap_err()),
        "invalid Groth16 verification-key length"
    );
    assert_eq!(
        ark_message(load_ark_groth16_verifying_key_from_bytes(&vk[..300]).unwrap_err()),
        "truncated point data"
    );
}

#[test]
fn compressed_point_reader_decodes_the_bundled_alpha() {
    let vk = bundled_vk();
    let alpha = compressed_g1(&vk[..32]).unwrap();
    let key = load_ark_groth16_verifying_key_from_bytes(&vk).unwrap();
    assert_eq!(alpha, key.alpha_g1);
}

#[test]
fn proof_reader_checks_length_and_points() {
    assert_eq!(
        ark_message(load_ark_proof_from_bytes(&[0u8; 255]).unwrap_err()),
        "invalid Groth16 proof length"
    );
    assert!(load_ark_proof_from_bytes(&[0xabu8; 256]).is_err());
    assert!(uncompressed_g1(&[0xabu8; 64]).is_err());
    assert_eq!(uncompressed_g1(&[0u8; 64]).unwrap(), G1Point::zero());
}

#[test]
fn odd_length_hex_is_a_hex_error() {
    let error = sp1_groth16_proof_bytes(&groth16(["1", "2", "3", "4", "5"], "abc".to_owned())).unwrap_err();
    assert!(matches!(error, Sp1ToSnarkjsError::Hex(HexError::OddLength)));
}

#[test]
fn metadata_words_are_big_endian_public_inputs() {
    let proof = vec![0x01u8; 256];
    let artifact = groth16(["1", "2", "255", "0", "7"], encoded([255, 0, 7], &proof));
    assert_eq!(sp1_groth16_proof_bytes(&artifact).unwrap(), proof);

    let invalid = groth16(["1", "2", "x", "0", "7"], encoded([255, 0, 7], &proof));
    let error = sp1_groth16_proof_bytes(&invalid).unwrap_err();
    assert!(matches!(error, Sp1ToSnarkjsError::InvalidDecimal(s) if s == "x"));
}

#[test]
fn non_groth16_artifacts_are_refused() {
    let artifact = SP1ProofWithPublicValues::new(SP1Proof::Core, Vec::new(), "v6.1.0".to_owned());
    assert!(matches!(sp1_groth16_public_inputs(&artifact).unwrap_err(), Sp1ToSnarkjsError::NotGroth16));
    assert!(matches!(convert_sp1_proof(&artifact).unwrap_err(), Sp1ToSnarkjsError::NotGroth16));
}

#[test]
fn unsupported_versions_are_never_converted() {
    let mut artifact = groth16(["1", "2", "3", "4", "5"], encoded([3, 4, 5], &[0u8; 256]));
    artifact.sp1_version = "v5.0.0".to_owned();
    let error = convert_sp1_proof(&artifact).unwrap_err();
    assert!(matches!(error, Sp1ToSnarkjsError::UnsupportedSp1Version { actual } if actual == "v5.0.0"));
}

#[test]
fn non_decimal_public_input_is_refused_before_anything_else() {
    let artifact = groth16(["one", "2", "3", "4", "5"], "zz".to_owned());
    let error = convert_sp1_proof(&artifact).unwrap_err();
    assert!(matches!(error, Sp1ToSnarkjsError::InvalidDecimal(s) if s == "one"));
}

#[test]
fn a_proof_arkworks_rejects_is_never_converted() {
    let artifact = groth16(["1", "2", "3", "4", "5"], encoded([3, 4, 5], &[0u8; 256]));
    let error = convert_sp1_proof(&artifact).unwrap_err();
    assert!(matches!(error, Sp1ToSnarkjsError::ArkVerificationFailed));
}

#[test]
fn undecodable_proof_points_are_an_arkworks_error() {
    let artifact = groth16(["1", "2", "3", "4", "5"], encoded([3, 4, 5], &[0xabu8; 256]));
    let error = convert_sp1_proof(&artifact).unwrap_err();
    assert!(matches!(error, Sp1ToSnarkjsError::ArkConversion(_)));
}

#[test]
fn key_with_wrong_ic_count_is_refused() {
    let vk = bundled_vk();
    let mut short = vk[..288].to_vec();
    short.extend_from_slice(&[0, 0, 0, 5]);
    short.extend_from_slice(&vk[292..292 + 5 * 32]);
    short.extend_from_slice(&[0, 0, 0, 0]);
    let artifact = groth16(["1", "2", "3", "4", "5"], encoded([3, 4, 5], &[0u8; 256]));
    let error = convert_sp1_proof_with_vk(&artifact, &short).unwrap_err();
    assert!(matches!(error, Sp1ToSnarkjsError::IcLengthMismatch { ic_len: 5, public_len: 5 }));
}

#[test]
fn loading_errors_are_handed_on() {
    let error = convert_sp1_proof_file(Err(Sp1ToSnarkjsError::Sp1("bad file".to_owned()))).unwrap_err();
    assert!(matches!(error, Sp1ToSnarkjsError::Sp1(m) if m == "bad file"));
}

fn be32(limbs: [u64; 4]) -> Vec<u8> {
    limbs.iter().rev().flat_map(|l| l.to_be_bytes()).collect()
}

fn g2_generator_gnark() -> (Vec<u8>, [[u64; 4]; 4]) {
    let g = ark_bn254::G2Affine::generator();
    let x_c0 = g.x.c0.into_bigint().0;
    let x_c1 = g.x.c1.into_bigint().0;
    let y_c0 = g.y.c0.into_bigint().0;
    let y_c1 = g.y.c1.into_bigint().0;
    let mut bytes = Vec::new();
    for l in [x_c1, x_c0, y_c1, y_c0] {
        bytes.extend(be32(l));
    }
    (bytes, [x_c0, x_c1, y_c0, y_c1])
}

#[test]
fn gnark_g1_coordinates_are_read_big_endian() {
    let mut bytes = be32([1, 0, 0, 0]);
    bytes.extend(be32([2, 0, 0, 0]));
    let p = uncompressed_g1(&bytes).unwrap();
    assert_eq!(p, G1Point { x: [1, 0, 0, 0], y: [2, 0, 0, 0], infinity: false });
    assert_eq!(g1_to_snarkjs(&p), ["1", "2", "1"]);
}

#[test]
fn gnark_g2_coordinates_are_read_c1_first() {
    let (bytes, [x_c0, x_c1, y_c0, y_c1]) = g2_generator_gnark();
    let p = sp1_to_snarkjs::sp1::uncompressed_g2(&bytes).unwrap();
    assert_eq!(p, G2Point { x_c0, x_c1, y_c0, y_c1, infinity: false });
}

#[test]
fn own_proof_reader_agrees_with_sp1_verifier() {
    let mut bytes = be32([1, 0, 0, 0]);
    bytes.extend(be32([2, 0, 0, 0]));
    bytes.extend(g2_generator_gnark().0);
    bytes.extend(be32([1, 0, 0, 0]));
    bytes.extend(be32([2, 0, 0, 0]));
    let own = load_ark_proof_from_bytes(&bytes).unwrap();
    let theirs = sp1_verifier::load_ark_proof_from_bytes(&bytes).unwrap();
    assert_eq!(own.a.x, theirs.a.x.into_bigint().0);
    assert_eq!(own.a.y, theirs.a.y.into_bigint().0);
    assert_eq!(own.b.x_c1, theirs.b.x.c1.into_bigint().0);
    assert_eq!(own.b.y_c0, theirs.b.y.c0.into_bigint().0);
    assert_eq!(own.c, own.a);
}
