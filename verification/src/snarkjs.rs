//! snarkjs Groth16 `proof.json` and `verification_key.json` for BN254 ("bn128").
use vstd::prelude::*;
use crate::codec::texts;
use crate::curve::{all_zero, clear_top_flags, proof_from_gnark, G1Point, G2Point, Groth16Proof, Groth16VerifyingKey};
use crate::field::{be_value, decimal_string, field_to_decimal, limbs_value};

verus! {

/// snarkjs Groth16 `proof.json` for BN254/bn128.
#[derive(Debug, Clone)]
pub struct SnarkJsProof {
    pub pi_a: [String; 3],
    pub pi_b: [[String; 2]; 3],
    pub pi_c: [String; 3],
    pub protocol: String,
    pub curve: String,
}

/// snarkjs Groth16 `verification_key.json` for BN254/bn128.
#[derive(Debug, Clone)]
pub struct SnarkJsVerificationKey {
    pub protocol: String,
    pub curve: String,
    pub n_public: usize,
    pub vk_alpha_1: [String; 3],
    pub vk_beta_2: [[String; 2]; 3],
    pub vk_gamma_2: [[String; 2]; 3],
    pub vk_delta_2: [[String; 2]; 3],
    pub ic: Vec<[String; 3]>,
}

/// The texts of a snarkjs G1 point.
pub open spec fn g1_texts(a: [String; 3]) -> Seq<Seq<char>> {
    texts(a@)
}

/// The texts of a snarkjs G2 point, row by row.
pub open spec fn g2_texts(a: [[String; 2]; 3]) -> Seq<Seq<Seq<char>>> {
    a@.map_values(|row: [String; 2]| texts(row@))
}

/// A decimal coordinate.
pub open spec fn dec(l: [u64; 4]) -> Seq<char> {
    decimal_string(limbs_value(l))
}

/// snarkjs' projective rendering of a G1 point: `[x, y, 1]`, and `[0, 1, 0]` for the
/// point at infinity.
pub open spec fn spec_g1_to_snarkjs(p: G1Point) -> Seq<Seq<char>> {
    if p.infinity {
        seq!["0"@, "1"@, "0"@]
    } else {
        seq![dec(p.x), dec(p.y), "1"@]
    }
}

/// snarkjs' projective rendering of a G2 point, each Fq2 element as `[c0, c1]`:
/// `[x, y, 1]`, and `[0, 1, 0]` for the point at infinity.
pub open spec fn spec_g2_to_snarkjs(p: G2Point) -> Seq<Seq<Seq<char>>> {
    if p.infinity {
        seq![seq!["0"@, "0"@], seq!["1"@, "0"@], seq!["0"@, "0"@]]
    } else {
        seq![seq![dec(p.x_c0), dec(p.x_c1)], seq![dec(p.y_c0), dec(p.y_c1)], seq!["1"@, "0"@]]
    }
}

/// Renders a G1 point the way snarkjs expects it.
pub fn g1_to_snarkjs(point: &G1Point) -> (r: [String; 3])
    ensures
        g1_texts(r) == spec_g1_to_snarkjs(*point),
{
    if point.infinity {
        let r = ["0".to_owned(), "1".to_owned(), "0".to_owned()];
        assert(g1_texts(r) =~= spec_g1_to_snarkjs(*point));
        return r;
    }
    let r = [field_to_decimal(point.x), field_to_decimal(point.y), "1".to_owned()];
    assert(g1_texts(r) =~= spec_g1_to_snarkjs(*point));
    r
}

/// Renders an element of Fq2 as `[c0, c1]`.
fn fq2_to_decimal_pair(c0: [u64; 4], c1: [u64; 4]) -> (r: [String; 2])
    ensures
        texts(r@) == seq![dec(c0), dec(c1)],
{
    let r = [field_to_decimal(c0), field_to_decimal(c1)];
    assert(texts(r@) =~= seq![dec(c0), dec(c1)]);
    r
}

/// A pair of fixed texts.
fn text_pair(a: &str, b: &str) -> (r: [String; 2])
    ensures
        texts(r@) == seq![a@, b@],
{
    let r = [a.to_owned(), b.to_owned()];
    assert(texts(r@) =~= seq![a@, b@]);
    r
}

/// Renders a G2 point the way snarkjs expects it.
pub fn g2_to_snarkjs(point: &G2Point) -> (r: [[String; 2]; 3])
    ensures
        g2_texts(r) == spec_g2_to_snarkjs(*point),
{
    if point.infinity {
        let r = [text_pair("0", "0"), text_pair("1", "0"), text_pair("0", "0")];
        assert(g2_texts(r) =~= spec_g2_to_snarkjs(*point));
        return r;
    }
    let r = [
        fq2_to_decimal_pair(point.x_c0, point.x_c1),
        fq2_to_decimal_pair(point.y_c0, point.y_c1),
        text_pair("1", "0"),
    ];
    assert(g2_texts(r) =~= spec_g2_to_snarkjs(*point));
    r
}

impl SnarkJsProof {
    /// The snarkjs rendering of a Groth16 proof.
    pub fn from(proof: &Groth16Proof) -> (r: SnarkJsProof)
        ensures
            g1_texts(r.pi_a) == spec_g1_to_snarkjs(proof.a),
            g2_texts(r.pi_b) == spec_g2_to_snarkjs(proof.b),
            g1_texts(r.pi_c) == spec_g1_to_snarkjs(proof.c),
            r.protocol@ == "groth16"@,
            r.curve@ == "bn128"@,
    {
        SnarkJsProof {
            pi_a: g1_to_snarkjs(&proof.a),
            pi_b: g2_to_snarkjs(&proof.b),
            pi_c: g1_to_snarkjs(&proof.c),
            protocol: "groth16".to_owned(),
            curve: "bn128".to_owned(),
        }
    }
}

impl SnarkJsVerificationKey {
    /// The snarkjs rendering of a Groth16 verifying key for `public_inputs_len`
    /// public inputs.
    pub fn from_ark_vk(vk: &Groth16VerifyingKey, public_inputs_len: usize) -> (r: SnarkJsVerificationKey)
        ensures
            r.protocol@ == "groth16"@,
            r.curve@ == "bn128"@,
            r.n_public == public_inputs_len,
            g1_texts(r.vk_alpha_1) == spec_g1_to_snarkjs(vk.alpha_g1),
            g2_texts(r.vk_beta_2) == spec_g2_to_snarkjs(vk.beta_g2),
            g2_texts(r.vk_gamma_2) == spec_g2_to_snarkjs(vk.gamma_g2),
            g2_texts(r.vk_delta_2) == spec_g2_to_snarkjs(vk.delta_g2),
            r.ic@.len() == vk.gamma_abc_g1@.len(),
            forall|i: int| 0 <= i < r.ic@.len() ==> g1_texts(#[trigger] r.ic@[i]) == spec_g1_to_snarkjs(vk.gamma_abc_g1@[i]),
    {
        let mut ic: Vec<[String; 3]> = Vec::with_capacity(vk.gamma_abc_g1.len());
        let mut i: usize = 0;
        while i < vk.gamma_abc_g1.len()
            invariant
                i <= vk.gamma_abc_g1@.len(),
                ic@.len() == i,
                forall|k: int| 0 <= k < i ==> g1_texts(#[trigger] ic@[k]) == spec_g1_to_snarkjs(vk.gamma_abc_g1@[k]),
            decreases vk.gamma_abc_g1@.len() - i,
        {
            ic.push(g1_to_snarkjs(&vk.gamma_abc_g1[i]));
            i = i + 1;
        }
        SnarkJsVerificationKey {
            protocol: "groth16".to_owned(),
            curve: "bn128".to_owned(),
            n_public: public_inputs_len,
            vk_alpha_1: g1_to_snarkjs(&vk.alpha_g1),
            vk_beta_2: g2_to_snarkjs(&vk.beta_g2),
            vk_gamma_2: g2_to_snarkjs(&vk.gamma_g2),
            vk_delta_2: g2_to_snarkjs(&vk.delta_g2),
            ic,
        }
    }
}

/// What snarkjs receives of a proof read from gnark bytes is those bytes in decimal:
/// each point not at infinity is `[x, y, 1]` with x and y the big-endian integers of
/// its gnark coordinate chunks (flag bits cleared; a G2 coordinate as `[c0, c1]`,
/// gnark holding c1 first), and an all-zero point is `[0, 1, 0]`.
pub proof fn lemma_rendered_proof_is_gnark_decimal(p: Groth16Proof, g: Seq<u8>)
    requires
        proof_from_gnark(p, g),
    ensures
        !p.a.infinity ==> spec_g1_to_snarkjs(p.a) == seq![
            decimal_string(be_value(g.subrange(0, 32))),
            decimal_string(be_value(clear_top_flags(g.subrange(32, 64), 0))),
            "1"@,
        ],
        all_zero(g.subrange(0, 64)) ==> spec_g1_to_snarkjs(p.a) == seq!["0"@, "1"@, "0"@],
        !p.b.infinity ==> spec_g2_to_snarkjs(p.b) == seq![
            seq![decimal_string(be_value(g.subrange(96, 128))), decimal_string(be_value(g.subrange(64, 96)))],
            seq![decimal_string(be_value(g.subrange(160, 192))), decimal_string(be_value(clear_top_flags(g.subrange(128, 160), 0)))],
            seq!["1"@, "0"@],
        ],
        all_zero(g.subrange(64, 192)) ==> spec_g2_to_snarkjs(p.b) == seq![seq!["0"@, "0"@], seq!["1"@, "0"@], seq!["0"@, "0"@]],
        !p.c.infinity ==> spec_g1_to_snarkjs(p.c) == seq![
            decimal_string(be_value(g.subrange(192, 224))),
            decimal_string(be_value(clear_top_flags(g.subrange(224, 256), 0))),
            "1"@,
        ],
        all_zero(g.subrange(192, 256)) ==> spec_g1_to_snarkjs(p.c) == seq!["0"@, "1"@, "0"@],
{
    reveal(proof_from_gnark);
    assert(g.subrange(64, 192).subrange(0, 32) =~= g.subrange(64, 96));
    assert(g.subrange(64, 192).subrange(32, 64) =~= g.subrange(96, 128));
    assert(g.subrange(64, 192).subrange(64, 96) =~= g.subrange(128, 160));
    assert(g.subrange(64, 192).subrange(96, 128) =~= g.subrange(160, 192));
    assert(g.subrange(192, 256).subrange(0, 32) =~= g.subrange(192, 224));
    assert(g.subrange(192, 256).subrange(32, 64) =~= g.subrange(224, 256));
    assert(g.subrange(0, 64).subrange(0, 32) =~= g.subrange(0, 32));
    assert(g.subrange(0, 64).subrange(32, 64) =~= g.subrange(32, 64));
}

} // verus!
