//! BN254 points and Groth16 proofs and keys, held as the canonical integers of
//! their coordinates, and the arkworks and SP1 calls that produce them.
use vstd::prelude::*;
use ark_ff::PrimeField;
use ark_serialize::CanonicalDeserialize;
use crate::field::{be_value, is_fq, le_value, limbs_value};
use crate::error::text_result;

verus! {

/// An affine point of BN254's G1: the canonical integers of its coordinates and
/// whether it is the point at infinity.
#[derive(Debug, Clone, Copy, PartialEq, Eq)]
pub struct G1Point {
    pub x: [u64; 4],
    pub y: [u64; 4],
    pub infinity: bool,
}

/// An affine point of BN254's G2, whose coordinates lie in Fq2 = Fq[u]:
/// `x = x_c0 + x_c1 * u`, `y = y_c0 + y_c1 * u`.
#[derive(Debug, Clone, Copy, PartialEq, Eq)]
pub struct G2Point {
    pub x_c0: [u64; 4],
    pub x_c1: [u64; 4],
    pub y_c0: [u64; 4],
    pub y_c1: [u64; 4],
    pub infinity: bool,
}

impl G1Point {
    /// Every coordinate is a canonical element of Fq.
    pub open spec fn well_formed(self) -> bool {
        is_fq(self.x) && is_fq(self.y)
    }

    /// The point at infinity, as arkworks' `G1Affine::zero()` holds it.
    pub open spec fn spec_zero() -> G1Point {
        G1Point { x: [0u64, 0u64, 0u64, 0u64], y: [0u64, 0u64, 0u64, 0u64], infinity: true }
    }

    /// The point at infinity.
    pub fn zero() -> (p: G1Point)
        ensures
            p == G1Point::spec_zero(),
            p.well_formed(),
    {
        let p = G1Point { x: [0u64, 0u64, 0u64, 0u64], y: [0u64, 0u64, 0u64, 0u64], infinity: true };
        assert(limbs_value(p.x) == 0);
        assert(limbs_value(p.y) == 0);
        p
    }
}

impl G2Point {
    /// Every coordinate is a canonical element of Fq.
    pub open spec fn well_formed(self) -> bool {
        is_fq(self.x_c0) && is_fq(self.x_c1) && is_fq(self.y_c0) && is_fq(self.y_c1)
    }

    /// The point at infinity, as arkworks' `G2Affine::zero()` holds it.
    pub open spec fn spec_zero() -> G2Point {
        G2Point {
            x_c0: [0u64, 0u64, 0u64, 0u64],
            x_c1: [0u64, 0u64, 0u64, 0u64],
            y_c0: [0u64, 0u64, 0u64, 0u64],
            y_c1: [0u64, 0u64, 0u64, 0u64],
            infinity: true,
        }
    }

    /// The point at infinity.
    pub fn zero() -> (p: G2Point)
        ensures
            p == G2Point::spec_zero(),
            p.well_formed(),
    {
        let p = G2Point {
            x_c0: [0u64, 0u64, 0u64, 0u64],
            x_c1: [0u64, 0u64, 0u64, 0u64],
            y_c0: [0u64, 0u64, 0u64, 0u64],
            y_c1: [0u64, 0u64, 0u64, 0u64],
            infinity: true,
        };
        assert(limbs_value(p.x_c0) == 0);
        assert(limbs_value(p.x_c1) == 0);
        assert(limbs_value(p.y_c0) == 0);
        assert(limbs_value(p.y_c1) == 0);
        p
    }
}

/// A Groth16 proof over BN254.
#[derive(Debug, Clone, Copy)]
pub struct Groth16Proof {
    pub a: G1Point,
    pub b: G2Point,
    pub c: G1Point,
}

/// A Groth16 verifying key over BN254.
#[derive(Debug, Clone)]
pub struct Groth16VerifyingKey {
    pub alpha_g1: G1Point,
    pub beta_g2: G2Point,
    pub gamma_g2: G2Point,
    pub delta_g2: G2Point,
    pub gamma_abc_g1: Vec<G1Point>,
}

/// A verifying key with its list of points taken as a sequence.
pub struct VerifyingKeyView {
    pub alpha_g1: G1Point,
    pub beta_g2: G2Point,
    pub gamma_g2: G2Point,
    pub delta_g2: G2Point,
    pub gamma_abc_g1: Seq<G1Point>,
}

impl View for Groth16VerifyingKey {
    type V = VerifyingKeyView;

    open spec fn view(&self) -> VerifyingKeyView {
        VerifyingKeyView {
            alpha_g1: self.alpha_g1,
            beta_g2: self.beta_g2,
            gamma_g2: self.gamma_g2,
            delta_g2: self.delta_g2,
            gamma_abc_g1: self.gamma_abc_g1@,
        }
    }
}

/// Every byte is zero.
pub open spec fn all_zero(s: Seq<u8>) -> bool {
    forall|i: int| 0 <= i < s.len() ==> s[i] == 0
}

/// `s` with its first byte's two flag bits cleared.
pub open spec fn clear_top_flags(s: Seq<u8>, i: int) -> Seq<u8> {
    s.update(i, s[i] & 0x3fu8)
}

/// The coordinates of a G1 point are the ones in arkworks' uncompressed encoding:
/// x, then y, each 32 bytes little-endian, the two flag bits in y's last byte.
pub open spec fn g1_matches_ark(p: G1Point, b: Seq<u8>) -> bool {
    &&& limbs_value(p.x) == le_value(b.subrange(0, 32))
    &&& limbs_value(p.y) == le_value(clear_top_flags(b.subrange(32, 64), 31))
}

/// The coordinates of a G2 point are the ones in arkworks' uncompressed encoding:
/// x then y, each as c0 then c1, 32 bytes little-endian each, the two flag bits in
/// the last byte of y's c1.
pub open spec fn g2_matches_ark(p: G2Point, b: Seq<u8>) -> bool {
    &&& limbs_value(p.x_c0) == le_value(b.subrange(0, 32))
    &&& limbs_value(p.x_c1) == le_value(b.subrange(32, 64))
    &&& limbs_value(p.y_c0) == le_value(b.subrange(64, 96))
    &&& limbs_value(p.y_c1) == le_value(clear_top_flags(b.subrange(96, 128), 31))
}

/// A G1 point read from gnark's uncompressed encoding: all-zero bytes give the point
/// at infinity, and any other point has the coordinates in the bytes: x, then y,
/// each 32 bytes big-endian, the two flag bits in y's first byte.
pub open spec fn g1_from_gnark(p: G1Point, g: Seq<u8>) -> bool {
    &&& all_zero(g) ==> p == G1Point::spec_zero()
    &&& !p.infinity ==> {
        &&& limbs_value(p.x) == be_value(g.subrange(0, 32))
        &&& limbs_value(p.y) == be_value(clear_top_flags(g.subrange(32, 64), 0))
    }
}

/// A G2 point read from gnark's uncompressed encoding: all-zero bytes give the point
/// at infinity, and any other point has the coordinates in the bytes: x, then y,
/// each as c1 then c0, 32 bytes big-endian each, the two flag bits in the first
/// byte of y's c1.
pub open spec fn g2_from_gnark(p: G2Point, g: Seq<u8>) -> bool {
    &&& all_zero(g) ==> p == G2Point::spec_zero()
    &&& !p.infinity ==> {
        &&& limbs_value(p.x_c1) == be_value(g.subrange(0, 32))
        &&& limbs_value(p.x_c0) == be_value(g.subrange(32, 64))
        &&& limbs_value(p.y_c1) == be_value(clear_top_flags(g.subrange(64, 96), 0))
        &&& limbs_value(p.y_c0) == be_value(g.subrange(96, 128))
    }
}

/// A Groth16 proof read from its 256 gnark bytes: A (uncompressed G1), B
/// (uncompressed G2), C (uncompressed G1).
#[verifier::opaque]
pub open spec fn proof_from_gnark(p: Groth16Proof, g: Seq<u8>) -> bool {
    &&& g.len() == 256
    &&& g1_from_gnark(p.a, g.subrange(0, 64))
    &&& g2_from_gnark(p.b, g.subrange(64, 192))
    &&& g1_from_gnark(p.c, g.subrange(192, 256))
}

/// The two flag bits of an arkworks point encoding of `size` bytes: the top bits of
/// its last byte.
pub open spec fn ark_flag_bits(bytes: Seq<u8>, size: int) -> u8 {
    bytes[size - 1] & 0xc0u8
}

/// What `G1Affine::deserialize_with_mode` (arkworks, with validation) gives for
/// bytes and a compression mode: the point, or the text of the error.
pub uninterp spec fn ark_g1_deserialization(bytes: Seq<u8>, compressed: bool) -> Result<G1Point, Seq<char>>;

/// What `G2Affine::deserialize_with_mode` (arkworks, with validation) gives for
/// bytes and a compression mode: the point, or the text of the error.
pub uninterp spec fn ark_g2_deserialization(bytes: Seq<u8>, compressed: bool) -> Result<G2Point, Seq<char>>;

/// Reads an arkworks-encoded G1 point with `G1Affine::deserialize_with_mode`,
/// validating it, and hands back the canonical integers of its coordinates
/// (`into_bigint`) and its infinity flag, or the error's text.
/// Claimed of the outside code: the outcome is the same for the same bytes and
/// mode, and the coordinates are canonical (below the modulus, as `into_bigint`
/// documents). Of an uncompressed point that is not at infinity, the coordinates
/// are the ones in the bytes: `deserialize_with_mode` reads x, then y with its flags,
/// as 32 little-endian bytes each, clearing the two flag bits at the top of y's last
/// byte, and `from_bigint` refuses integers at or above the modulus. A decoded
/// encoding (32 bytes compressed, 64 uncompressed) whose flag bits are `01` is the
/// point at infinity, and one whose infinity bit is clear is not. Which byte strings
/// decode, and which compressed encodings give which points, is left unsaid.
#[verifier::external_body]
pub(crate) fn ark_g1_deserialize(bytes: &[u8], compressed: bool) -> (r: Result<G1Point, String>)
    ensures
        text_result(r) == ark_g1_deserialization(bytes@, compressed),
        r matches Ok(p) ==> p.well_formed(),
        r matches Ok(p) ==> (!compressed && bytes@.len() >= 64 && !p.infinity ==> g1_matches_ark(p, bytes@)),
        r matches Ok(p) ==> (bytes@.len() >= (if compressed { 32int } else { 64int })
            && ark_flag_bits(bytes@, if compressed { 32int } else { 64int }) == 0x40u8 ==> p == G1Point::spec_zero()),
        r matches Ok(p) ==> (bytes@.len() >= (if compressed { 32int } else { 64int })
            && ark_flag_bits(bytes@, if compressed { 32int } else { 64int }) & 0x40u8 == 0 ==> !p.infinity),
{
    let mode = if compressed { ark_serialize::Compress::Yes } else { ark_serialize::Compress::No };
    match ark_bn254::G1Affine::deserialize_with_mode(bytes, mode, ark_serialize::Validate::Yes) {
        Ok(p) => Ok(G1Point { x: p.x.into_bigint().0, y: p.y.into_bigint().0, infinity: p.infinity }),
        Err(e) => Err(format!("{e}")),
    }
}

/// Reads an arkworks-encoded G2 point with `G2Affine::deserialize_with_mode`,
/// validating it, and hands back the canonical integers of its coordinates
/// (`into_bigint` of each Fq2 component) and its infinity flag, or the error's text.
/// Claimed of the outside code: the outcome is the same for the same bytes and
/// mode, and the coordinates are canonical. Of an uncompressed point that is not at
/// infinity, the coordinates are the ones in the bytes: x then y, each as c0 then
/// c1 (`QuadExtField` reads c0 first, and y's c1 with the flags), 32 little-endian
/// bytes each, the two flag bits at the top of the last byte cleared. A decoded
/// encoding (64 bytes compressed, 128 uncompressed) whose flag bits are `01` is the
/// point at infinity, and one whose infinity bit is clear is not. Which byte strings
/// decode, and which compressed encodings give which points, is left unsaid.
#[verifier::external_body]
pub(crate) fn ark_g2_deserialize(bytes: &[u8], compressed: bool) -> (r: Result<G2Point, String>)
    ensures
        text_result(r) == ark_g2_deserialization(bytes@, compressed),
        r matches Ok(p) ==> p.well_formed(),
        r matches Ok(p) ==> (!compressed && bytes@.len() >= 128 && !p.infinity ==> g2_matches_ark(p, bytes@)),
        r matches Ok(p) ==> (bytes@.len() >= (if compressed { 64int } else { 128int })
            && ark_flag_bits(bytes@, if compressed { 64int } else { 128int }) == 0x40u8 ==> p == G2Point::spec_zero()),
        r matches Ok(p) ==> (bytes@.len() >= (if compressed { 64int } else { 128int })
            && ark_flag_bits(bytes@, if compressed { 64int } else { 128int }) & 0x40u8 == 0 ==> !p.infinity),
{
    let mode = if compressed { ark_serialize::Compress::Yes } else { ark_serialize::Compress::No };
    match ark_bn254::G2Affine::deserialize_with_mode(bytes, mode, ark_serialize::Validate::Yes) {
        Ok(p) => Ok(G2Point {
            x_c0: p.x.c0.into_bigint().0,
            x_c1: p.x.c1.into_bigint().0,
            y_c0: p.y.c0.into_bigint().0,
            y_c1: p.y.c1.into_bigint().0,
            infinity: p.infinity,
        }),
        Err(e) => Err(format!("{e}")),
    }
}

} // verus!
