//! The conversion of an SP1 Groth16 artifact into snarkjs artifacts, checked with
//! arkworks before anything is handed out.
use vstd::prelude::*;
use crate::codec::texts;
use crate::curve::{proof_from_gnark, Groth16Proof, Groth16VerifyingKey, VerifyingKeyView};
use crate::error::{ErrorView, Sp1ToSnarkjsError};
use crate::field::{fr_str_limbs, fr_from_decimal, is_fr};
use crate::groth16::{
    groth16_verification, groth16_verify, sp1_ark_proof, sp1_ark_vk, sp1_groth16_vk, sp1_groth16_vk_bytes,
    sp1_load_ark_proof, sp1_load_ark_vk,
};
use crate::snarkjs::{
    g1_texts, g2_texts, spec_g1_to_snarkjs, spec_g2_to_snarkjs, SnarkJsProof, SnarkJsVerificationKey,
};
use crate::sp1::{
    sp1_groth16_proof_bytes, sp1_groth16_public_inputs, spec_groth16_proof, spec_proof_bytes,
    supported_sp1_version, spec_read_u32, SP1ProofWithPublicValues,
};

verus! {

/// The three snarkjs artifacts: `proof.json`, `public.json` and `verification_key.json`.
#[derive(Debug, Clone)]
pub struct ExportedArtifacts {
    pub proof: SnarkJsProof,
    pub public_inputs: Vec<String>,
    pub verification_key: SnarkJsVerificationKey,
}

/// What a successful conversion is made of: the loaded proof and key and the public
/// inputs in decimal.
pub struct Conversion {
    pub proof: Groth16Proof,
    pub vk: VerifyingKeyView,
    pub public_inputs: Seq<Seq<char>>,
}

/// Parsing the first `n` decimal public inputs as elements of Fr, in order.
pub open spec fn spec_public_inputs_fr(inputs: Seq<Seq<char>>, n: nat) -> Result<Seq<[u64; 4]>, ErrorView>
    decreases n,
{
    if n == 0 {
        Ok(seq![])
    } else {
        match spec_public_inputs_fr(inputs, (n - 1) as nat) {
            Err(e) => Err(e),
            Ok(v) => match fr_str_limbs(inputs[n - 1]) {
                None => Err(ErrorView::InvalidDecimal(inputs[n - 1])),
                Some(l) => Ok(v.push(l)),
            },
        }
    }
}

/// The conversion of an artifact against a gnark-encoded verifying key, or why it
/// fails. In order: the Groth16 proof is selected and its public inputs read; each
/// must be a decimal element of Fr; the proof bytes are extracted and checked against
/// the metadata; the proof and key are loaded; the key must have one IC point more
/// than there are public inputs; and arkworks must accept the proof.
pub open spec fn spec_convert(p: SP1ProofWithPublicValues, vk_bytes: Seq<u8>) -> Result<Conversion, ErrorView> {
    match spec_groth16_proof(p) {
        Err(e) => Err(e),
        Ok(g) => {
            let inputs = texts(g.public_inputs@);
            match spec_public_inputs_fr(inputs, 5) {
                Err(e) => Err(e),
                Ok(frs) => match spec_proof_bytes(p) {
                    Err(e) => Err(e),
                    Ok(proof_bytes) => match sp1_ark_proof(proof_bytes) {
                        Err(m) => Err(ErrorView::ArkConversion(m)),
                        Ok(proof) => match sp1_ark_vk(vk_bytes) {
                            Err(m) => Err(ErrorView::ArkConversion(m)),
                            Ok(vk) => if vk.gamma_abc_g1.len() != 6 {
                                Err(ErrorView::IcLengthMismatch { ic_len: vk.gamma_abc_g1.len() as usize, public_len: 5 })
                            } else if groth16_verification(vk_bytes, frs, proof_bytes) != Some(true) {
                                Err(ErrorView::ArkVerificationFailed)
                            } else {
                                Ok(Conversion { proof, vk, public_inputs: inputs })
                            },
                        },
                    },
                },
            }
        },
    }
}

/// The artifacts render the conversion: the proof and key in snarkjs form, the key
/// for five public inputs, and the public inputs unchanged.
pub open spec fn renders(a: ExportedArtifacts, c: Conversion) -> bool {
    &&& g1_texts(a.proof.pi_a) == spec_g1_to_snarkjs(c.proof.a)
    &&& g2_texts(a.proof.pi_b) == spec_g2_to_snarkjs(c.proof.b)
    &&& g1_texts(a.proof.pi_c) == spec_g1_to_snarkjs(c.proof.c)
    &&& a.proof.protocol@ == "groth16"@
    &&& a.proof.curve@ == "bn128"@
    &&& texts(a.public_inputs@) == c.public_inputs
    &&& a.verification_key.protocol@ == "groth16"@
    &&& a.verification_key.curve@ == "bn128"@
    &&& a.verification_key.n_public == 5
    &&& g1_texts(a.verification_key.vk_alpha_1) == spec_g1_to_snarkjs(c.vk.alpha_g1)
    &&& g2_texts(a.verification_key.vk_beta_2) == spec_g2_to_snarkjs(c.vk.beta_g2)
    &&& g2_texts(a.verification_key.vk_gamma_2) == spec_g2_to_snarkjs(c.vk.gamma_g2)
    &&& g2_texts(a.verification_key.vk_delta_2) == spec_g2_to_snarkjs(c.vk.delta_g2)
    &&& a.verification_key.ic@.len() == c.vk.gamma_abc_g1.len()
    &&& forall|i: int| 0 <= i < a.verification_key.ic@.len() ==> g1_texts(#[trigger] a.verification_key.ic@[i]) == spec_g1_to_snarkjs(c.vk.gamma_abc_g1[i])
}

/// An executable conversion agrees with a specified one.
pub open spec fn converted(r: Result<ExportedArtifacts, Sp1ToSnarkjsError>, s: Result<Conversion, ErrorView>) -> bool {
    match s {
        Ok(c) => r matches Ok(a) && renders(a, c),
        Err(e) => r matches Err(f) && f@ == e,
    }
}

/// Once parsing a public input fails, parsing more of them fails the same way.
proof fn lemma_public_inputs_failure_persists(inputs: Seq<Seq<char>>, k: nat, n: nat)
    requires
        k <= n,
        spec_public_inputs_fr(inputs, k) is Err,
    ensures
        spec_public_inputs_fr(inputs, n) == spec_public_inputs_fr(inputs, k),
    decreases n - k,
{
    if k < n {
        lemma_public_inputs_failure_persists(inputs, k, (n - 1) as nat);
    }
}

/// Parses the decimal public inputs as elements of Fr, in order.
fn parse_public_inputs(public_inputs: &Vec<String>) -> (r: Result<Vec<[u64; 4]>, Sp1ToSnarkjsError>)
    ensures
        match spec_public_inputs_fr(texts(public_inputs@), public_inputs@.len()) {
            Ok(v) => r matches Ok(w) && w@ == v && forall|k: int| 0 <= k < w@.len() ==> is_fr(#[trigger] w@[k]),
            Err(e) => r matches Err(f) && f@ == e,
        },
{
    let ghost inputs = texts(public_inputs@);
    let mut parsed: Vec<[u64; 4]> = Vec::with_capacity(public_inputs.len());
    let mut i: usize = 0;
    while i < public_inputs.len()
        invariant
            inputs == texts(public_inputs@),
            i <= public_inputs@.len(),
            spec_public_inputs_fr(inputs, i as nat) == Ok::<Seq<[u64; 4]>, ErrorView>(parsed@),
            forall|k: int| 0 <= k < parsed@.len() ==> is_fr(#[trigger] parsed@[k]),
        decreases public_inputs@.len() - i,
    {
        assert(public_inputs@[i as int]@ == inputs[i as int]);
        match fr_from_decimal(public_inputs[i].as_str()) {
            Some(l) => parsed.push(l),
            None => {
                proof {
                    lemma_public_inputs_failure_persists(inputs, (i + 1) as nat, public_inputs@.len());
                }
                return Err(Sp1ToSnarkjsError::InvalidDecimal(public_inputs[i].clone()));
            },
        }
        i = i + 1;
    }
    Ok(parsed)
}

/// The snarkjs artifacts of a loaded proof and key and the decimal public inputs.
fn render_artifacts(proof: &Groth16Proof, vk: &Groth16VerifyingKey, public_inputs: Vec<String>) -> (a: ExportedArtifacts)
    requires
        public_inputs@.len() == 5,
    ensures
        renders(a, Conversion { proof: *proof, vk: vk@, public_inputs: texts(public_inputs@) }),
{
    let ghost inputs = texts(public_inputs@);
    let n = public_inputs.len();
    let snark_proof = SnarkJsProof::from(proof);
    let verification_key = SnarkJsVerificationKey::from_ark_vk(vk, n);
    ExportedArtifacts { proof: snark_proof, public_inputs, verification_key }
}

/// Converts an SP1 Groth16 artifact into snarkjs artifacts against a gnark-encoded
/// Groth16 verifying key, verifying the proof with arkworks first.
pub fn convert_sp1_proof_with_vk(sp1_proof: &SP1ProofWithPublicValues, vk_bytes: &[u8]) -> (r: Result<ExportedArtifacts, Sp1ToSnarkjsError>)
    ensures
        converted(r, spec_convert(*sp1_proof, vk_bytes@)),
        r is Ok ==> proof_from_gnark(spec_convert(*sp1_proof, vk_bytes@)->Ok_0.proof, spec_proof_bytes(*sp1_proof)->Ok_0),
        r matches Ok(a) ==> exports_checked(a, *sp1_proof, vk_bytes@),
{
    let public_inputs = sp1_groth16_public_inputs(sp1_proof)?;
    let ghost g = spec_groth16_proof(*sp1_proof)->Ok_0;
    assert(texts(public_inputs@).len() == public_inputs@.len());
    assert(g.public_inputs@.len() == 5);
    let ark_public_inputs = parse_public_inputs(&public_inputs)?;
    let proof_bytes = sp1_groth16_proof_bytes(sp1_proof)?;
    let ark_proof = match sp1_load_ark_proof(proof_bytes.as_slice()) {
        Ok(p) => p,
        Err(m) => return Err(Sp1ToSnarkjsError::ArkConversion(m)),
    };
    let ark_vk = match sp1_load_ark_vk(vk_bytes) {
        Ok(k) => k,
        Err(m) => return Err(Sp1ToSnarkjsError::ArkConversion(m)),
    };
    if ark_vk.gamma_abc_g1.len() != public_inputs.len() + 1 {
        return Err(Sp1ToSnarkjsError::IcLengthMismatch {
            ic_len: ark_vk.gamma_abc_g1.len(),
            public_len: public_inputs.len(),
        });
    }
    match groth16_verify(vk_bytes, &ark_public_inputs, proof_bytes.as_slice()) {
        Some(true) => {},
        _ => return Err(Sp1ToSnarkjsError::ArkVerificationFailed),
    }
    let artifacts = render_artifacts(&ark_proof, &ark_vk, public_inputs);
    proof {
        lemma_conversion_exports_checked(*sp1_proof, vk_bytes@, artifacts);
    }
    Ok(artifacts)
}

/// Converts an SP1 Groth16 artifact into snarkjs artifacts against the Groth16
/// verifying key that SP1 ships, verifying the proof with arkworks first.
pub fn convert_sp1_proof(sp1_proof: &SP1ProofWithPublicValues) -> (r: Result<ExportedArtifacts, Sp1ToSnarkjsError>)
    ensures
        converted(r, spec_convert(*sp1_proof, sp1_groth16_vk())),
        r matches Ok(a) ==> exports_checked(a, *sp1_proof, sp1_groth16_vk()),
{
    let vk_bytes = sp1_groth16_vk_bytes();
    convert_sp1_proof_with_vk(sp1_proof, vk_bytes.as_slice())
}

/// Converts the artifact that loading a proof file gave, handing on the loading error.
pub fn convert_sp1_proof_file(loaded: Result<SP1ProofWithPublicValues, Sp1ToSnarkjsError>) -> (r: Result<ExportedArtifacts, Sp1ToSnarkjsError>)
    ensures
        match loaded {
            Ok(p) => converted(r, spec_convert(p, sp1_groth16_vk())) && (r matches Ok(a) ==> exports_checked(a, p, sp1_groth16_vk())),
            Err(e) => r matches Err(f) && f@ == e@,
        },
{
    let proof = loaded?;
    convert_sp1_proof(&proof)
}

/// Every conversion was verified: when a conversion succeeds, arkworks accepted the
/// proof that was loaded from the extracted proof bytes, against the loaded key and
/// the public inputs taken as elements of Fr; the key has one IC point more than there
/// are public inputs; and the rendered proof and key are the ones that were checked.
pub proof fn lemma_conversion_is_verified(p: SP1ProofWithPublicValues, vk_bytes: Seq<u8>)
    requires
        spec_convert(p, vk_bytes) is Ok,
    ensures
        ({
            let c = spec_convert(p, vk_bytes)->Ok_0;
            let proof_bytes = spec_proof_bytes(p)->Ok_0;
            let frs = spec_public_inputs_fr(c.public_inputs, 5)->Ok_0;
            &&& spec_proof_bytes(p) is Ok
            &&& spec_public_inputs_fr(c.public_inputs, 5) is Ok
            &&& groth16_verification(vk_bytes, frs, proof_bytes) == Some(true)
            &&& sp1_ark_proof(proof_bytes) == Ok::<Groth16Proof, Seq<char>>(c.proof)
            &&& sp1_ark_vk(vk_bytes) == Ok::<VerifyingKeyView, Seq<char>>(c.vk)
            &&& c.public_inputs.len() == 5
            &&& c.vk.gamma_abc_g1.len() == c.public_inputs.len() + 1
        }),
{
    let g = spec_groth16_proof(p)->Ok_0;
    assert(g.public_inputs@.len() == 5);
}

/// An artifact of any SP1 version but the supported one is never converted, whatever
/// the verifying key; the refusal names that version.
pub proof fn lemma_unsupported_version_never_converted(p: SP1ProofWithPublicValues, vk_bytes: Seq<u8>)
    requires
        p.sp1_version@ != supported_sp1_version(),
    ensures
        spec_convert(p, vk_bytes) == Err::<Conversion, ErrorView>(ErrorView::UnsupportedSp1Version { actual: p.sp1_version@ }),
{
}

/// Parsing public inputs keeps their order: it succeeds exactly when each of the
/// first `n` inputs parses as an element of Fr, and then element `k` is what
/// `Fr::from_str` gives for input `k`.
pub proof fn lemma_public_inputs_in_order(inputs: Seq<Seq<char>>, n: nat)
    requires
        n <= inputs.len(),
    ensures
        spec_public_inputs_fr(inputs, n) is Ok <==> (forall|k: int| 0 <= k < n ==> #[trigger] fr_str_limbs(inputs[k]) is Some),
        spec_public_inputs_fr(inputs, n) is Ok ==> spec_public_inputs_fr(inputs, n)->Ok_0 == Seq::new(n, |k: int| fr_str_limbs(inputs[k])->Some_0),
    decreases n,
{
    if n > 0 {
        let m = (n - 1) as nat;
        lemma_public_inputs_in_order(inputs, m);
        assert(fr_str_limbs(inputs[m as int]) is Some || fr_str_limbs(inputs[m as int]) is None);
        if spec_public_inputs_fr(inputs, n) is Ok {
            assert(spec_public_inputs_fr(inputs, n)->Ok_0 =~= Seq::new(n, |k: int| fr_str_limbs(inputs[k])->Some_0));
        }
    }
}

/// What a successful conversion hands out, in terms of the artifact and the key bytes
/// alone: arkworks accepted the proof loaded from the extracted proof bytes against
/// the key loaded from the key bytes and the five public inputs as elements of Fr, in
/// their order; `public.json` is those inputs in that order; `proof.json` renders the
/// loaded proof's A, B and C as `pi_a`, `pi_b` and `pi_c`; and `verification_key.json`
/// renders the loaded key's alpha, beta, gamma, delta and IC points, in order, for
/// five public inputs.
pub open spec fn exports_checked(a: ExportedArtifacts, p: SP1ProofWithPublicValues, vk_bytes: Seq<u8>) -> bool {
    let g = spec_groth16_proof(p)->Ok_0;
    let proof_bytes = spec_proof_bytes(p)->Ok_0;
    let proof = sp1_ark_proof(proof_bytes)->Ok_0;
    let vk = sp1_ark_vk(vk_bytes)->Ok_0;
    &&& forall|k: int| 0 <= k < 5 ==> #[trigger] fr_str_limbs(g.public_inputs@[k]@) is Some
    &&& groth16_verification(vk_bytes, Seq::new(5, |k: int| fr_str_limbs(g.public_inputs@[k]@)->Some_0), proof_bytes) == Some(true)
    &&& a.public_inputs@.len() == 5
    &&& forall|k: int| 0 <= k < 5 ==> #[trigger] a.public_inputs@[k]@ == g.public_inputs@[k]@
    &&& g1_texts(a.proof.pi_a) == spec_g1_to_snarkjs(proof.a)
    &&& g2_texts(a.proof.pi_b) == spec_g2_to_snarkjs(proof.b)
    &&& g1_texts(a.proof.pi_c) == spec_g1_to_snarkjs(proof.c)
    &&& a.verification_key.n_public == 5
    &&& g1_texts(a.verification_key.vk_alpha_1) == spec_g1_to_snarkjs(vk.alpha_g1)
    &&& g2_texts(a.verification_key.vk_beta_2) == spec_g2_to_snarkjs(vk.beta_g2)
    &&& g2_texts(a.verification_key.vk_gamma_2) == spec_g2_to_snarkjs(vk.gamma_g2)
    &&& g2_texts(a.verification_key.vk_delta_2) == spec_g2_to_snarkjs(vk.delta_g2)
    &&& a.verification_key.ic@.len() == vk.gamma_abc_g1.len()
    &&& forall|i: int| 0 <= i < vk.gamma_abc_g1.len() ==> g1_texts(#[trigger] a.verification_key.ic@[i]) == spec_g1_to_snarkjs(vk.gamma_abc_g1[i])
}

/// Artifacts that render a successful conversion are the ones that were checked: the
/// proof arkworks accepted, against the public inputs in their order, rendered in
/// place (A as `pi_a`, C as `pi_c`), and the key it was checked against.
pub proof fn lemma_conversion_exports_checked(p: SP1ProofWithPublicValues, vk_bytes: Seq<u8>, a: ExportedArtifacts)
    requires
        spec_convert(p, vk_bytes) is Ok,
        renders(a, spec_convert(p, vk_bytes)->Ok_0),
    ensures
        exports_checked(a, p, vk_bytes),
{
    let g = spec_groth16_proof(p)->Ok_0;
    let inputs = texts(g.public_inputs@);
    assert(g.public_inputs@.len() == 5);
    lemma_public_inputs_in_order(inputs, 5);
    assert forall|k: int| 0 <= k < 5 implies #[trigger] fr_str_limbs(g.public_inputs@[k]@) is Some by {
        assert(inputs[k] == g.public_inputs@[k]@);
    }
    assert(Seq::new(5, |k: int| fr_str_limbs(inputs[k])->Some_0) =~= Seq::new(5, |k: int| fr_str_limbs(g.public_inputs@[k]@)->Some_0));
    assert forall|k: int| 0 <= k < 5 implies #[trigger] a.public_inputs@[k]@ == g.public_inputs@[k]@ by {
        assert(texts(a.public_inputs@)[k] == inputs[k]);
    }
}

/// The layout of the verifying key that SP1 ships: 492 bytes, whose count of IC
/// points (at byte 288) is 6, one more than the five public inputs, and whose count
/// of commitment-index arrays (at byte 484 = 292 + 6 * 32, just past the six 32-byte
/// points) is 0.
pub proof fn lemma_shipped_key_layout()
    ensures
        sp1_groth16_vk().len() == 492,
        spec_read_u32(sp1_groth16_vk(), 288) == Ok::<(nat, int), Seq<char>>((6nat, 292int)),
        spec_read_u32(sp1_groth16_vk(), 484) == Ok::<(nat, int), Seq<char>>((0nat, 488int)),
{
    let k = sp1_groth16_vk();
    assert(k.len() == 492);
    assert(k.subrange(288, 292) =~= seq![0u8, 0u8, 0u8, 6u8]);
    assert(k.subrange(484, 488) =~= seq![0u8, 0u8, 0u8, 0u8]);
}

} // verus!
