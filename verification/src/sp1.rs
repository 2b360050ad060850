//! SP1 Groth16 artifacts: gnark point encodings, the Groth16 proof and verifying-key
//! layouts, and the checks that select the Groth16 wrapper proof of an SP1 artifact.
use vstd::prelude::*;
use crate::curve::{
    all_zero, clear_top_flags, g1_from_gnark, g2_from_gnark, proof_from_gnark,
    ark_g1_deserialization, ark_g1_deserialize, ark_g2_deserialization, ark_g2_deserialize,
    G1Point, G2Point, Groth16Proof, Groth16VerifyingKey, VerifyingKeyView,
};
use crate::error::{ark_error, ErrorView, Sp1ToSnarkjsError};
use crate::codec::{bytes_eq, hex_decode, hex_decode_spec, str_eq, texts};
use crate::field::{
    be_prefix_value, be_value, fr_str_limbs, fr_from_decimal, lemma_limbs_bytes_be_value, limbs_bytes_be,
    limbs_to_bytes_be, limbs_value,
};
use vstd::utf8::encode_utf8;
use vstd::slice::slice_to_vec;

verus! {

/// Bytes of SP1 wrapper metadata in front of the Groth16 proof.
pub const SP1_GROTH16_METADATA_BYTES: usize = 96;

/// Bytes of a gnark-encoded Groth16 proof.
pub const GROTH16_PROOF_BYTES: usize = 256;

/// Bytes of an SP1 Groth16 `encoded_proof` once hex-decoded.
pub const SP1_GROTH16_ENCODED_BYTES: usize = 352;

/// The two most significant bits of the first byte, which gnark and arkworks use as flags.
pub const GNARK_MASK: u8 = 0xc0;

/// gnark's flag for a compressed point whose y is the lexicographically smaller root.
pub const GNARK_POSITIVE: u8 = 0x80;

/// gnark's flag for a compressed point whose y is the lexicographically larger root.
pub const GNARK_NEGATIVE: u8 = 0xc0;

/// gnark's flag for the compressed point at infinity.
pub const GNARK_INFINITY: u8 = 0x40;

/// arkworks' flag for a compressed point whose y is the positive root.
pub const ARK_POSITIVE: u8 = 0x00;

/// arkworks' flag for a compressed point whose y is the negative root.
pub const ARK_NEGATIVE: u8 = 0x80;

/// arkworks' flag for the compressed point at infinity.
pub const ARK_INFINITY: u8 = 0x40;

// ---------------------------------------------------------------------------
// Outcomes of the byte-level readers
// ---------------------------------------------------------------------------

/// An executable outcome agrees with a specified one, whose failure is an arkworks
/// conversion error with the given text.
pub open spec fn ark_outcome<T>(r: Result<T, Sp1ToSnarkjsError>, s: Result<T, Seq<char>>) -> bool {
    match s {
        Ok(v) => r matches Ok(w) && w == v,
        Err(m) => r matches Err(e) && e@ == ErrorView::ArkConversion(m),
    }
}

/// The arkworks flag that stands for the gnark flag in the top bits of `first`.
pub open spec fn ark_flag_for(first: u8) -> Option<u8> {
    let f = first & 0xc0u8;
    if f == 0x80u8 {
        Some(0x00u8)
    } else if f == 0xc0u8 {
        Some(0x80u8)
    } else if f == 0x40u8 {
        Some(0x40u8)
    } else {
        None
    }
}

/// The arkworks encoding of a gnark-compressed point: the gnark flag is replaced by
/// the matching arkworks flag, and the bytes are put in little-endian order.
pub open spec fn spec_gnark_compressed_to_ark(bytes: Seq<u8>) -> Result<Seq<u8>, Seq<char>> {
    if bytes.len() != 32 && bytes.len() != 64 {
        Err("invalid compressed point length"@)
    } else {
        match ark_flag_for(bytes[0]) {
            None => Err("invalid gnark point flag"@),
            Some(flag) => Ok(bytes.update(0, (bytes[0] & 0x3fu8) | flag).reverse()),
        }
    }
}

/// Rewrites a gnark-compressed G1 (32 bytes) or G2 (64 bytes) point into the
/// arkworks compressed encoding.
pub fn gnark_compressed_to_ark(bytes: &[u8]) -> (r: Result<Vec<u8>, Sp1ToSnarkjsError>)
    ensures
        match spec_gnark_compressed_to_ark(bytes@) {
            Ok(v) => r matches Ok(w) && w@ == v,
            Err(m) => r matches Err(e) && e@ == ErrorView::ArkConversion(m),
        },
{
    let n = bytes.len();
    if n != 32 && n != 64 {
        return Err(ark_error("invalid compressed point length"));
    }
    let first = bytes[0];
    let gnark_flag = first & GNARK_MASK;
    let ark_flag: u8 = if gnark_flag == GNARK_POSITIVE {
        ARK_POSITIVE
    } else if gnark_flag == GNARK_NEGATIVE {
        ARK_NEGATIVE
    } else if gnark_flag == GNARK_INFINITY {
        ARK_INFINITY
    } else {
        return Err(ark_error("invalid gnark point flag"));
    };
    let new_first: u8 = first & !GNARK_MASK | ark_flag;
    assert(first & !0xc0u8 == first & 0x3fu8) by (bit_vector);
    let ghost updated = bytes@.update(0, new_first);
    let mut out: Vec<u8> = Vec::with_capacity(n);
    let mut i: usize = n;
    while i > 0
        invariant
            i <= n,
            n == bytes@.len(),
            updated.len() == n,
            updated == bytes@.update(0, new_first),
            out@.len() == n - i,
            forall|k: int| 0 <= k < n - i ==> out@[k] == updated[n - 1 - k],
        decreases i,
    {
        i = i - 1;
        let b: u8 = if i == 0 { new_first } else { bytes[i] };
        out.push(b);
    }
    assert(out@ =~= updated.reverse());
    Ok(out)
}

/// The arkworks uncompressed encoding of a gnark-uncompressed point whose two
/// coordinates take `half` bytes each: each coordinate in little-endian order,
/// then an empty flag byte.
pub open spec fn ark_uncompressed_encoding(bytes: Seq<u8>, half: int) -> Seq<u8> {
    bytes.subrange(0, half).reverse() + bytes.subrange(half, 2 * half).reverse() + seq![0u8]
}

/// The G1 point that a gnark-compressed encoding stands for.
pub open spec fn spec_compressed_g1(bytes: Seq<u8>) -> Result<G1Point, Seq<char>> {
    match spec_gnark_compressed_to_ark(bytes) {
        Err(m) => Err(m),
        Ok(enc) => ark_g1_deserialization(enc, true),
    }
}

/// The G2 point that a gnark-compressed encoding stands for.
pub open spec fn spec_compressed_g2(bytes: Seq<u8>) -> Result<G2Point, Seq<char>> {
    match spec_gnark_compressed_to_ark(bytes) {
        Err(m) => Err(m),
        Ok(enc) => ark_g2_deserialization(enc, true),
    }
}

/// The G1 point that a gnark-uncompressed encoding (x then y, big-endian) stands for;
/// all-zero bytes stand for the point at infinity.
pub open spec fn spec_uncompressed_g1(bytes: Seq<u8>) -> Result<G1Point, Seq<char>> {
    if all_zero(bytes) {
        Ok(G1Point::spec_zero())
    } else {
        ark_g1_deserialization(ark_uncompressed_encoding(bytes, 32), false)
    }
}

/// The G2 point that a gnark-uncompressed encoding stands for; all-zero bytes stand
/// for the point at infinity.
pub open spec fn spec_uncompressed_g2(bytes: Seq<u8>) -> Result<G2Point, Seq<char>> {
    if all_zero(bytes) {
        Ok(G2Point::spec_zero())
    } else {
        ark_g2_deserialization(ark_uncompressed_encoding(bytes, 64), false)
    }
}

/// The arkworks flag bits that a gnark compressed first byte is rewritten to: the
/// infinity flag `01` exactly for gnark's infinity flag, and otherwise a clear
/// infinity bit.
proof fn lemma_ark_flag_of_gnark(first: u8)
    requires
        ark_flag_for(first) is Some,
    ensures
        ((first & 0x3fu8) | ark_flag_for(first)->Some_0) & 0xc0u8 == ark_flag_for(first)->Some_0,
        (ark_flag_for(first)->Some_0 == 0x40u8) <==> (first & 0xc0u8 == 0x40u8),
        ark_flag_for(first)->Some_0 != 0x40u8 ==> ark_flag_for(first)->Some_0 & 0x40u8 == 0,
{
    let flag = ark_flag_for(first)->Some_0;
    assert(flag == 0u8 || flag == 0x80u8 || flag == 0x40u8);
    assert(((first & 0x3fu8) | flag) & 0xc0u8 == flag) by (bit_vector)
        requires
            flag == 0u8 || flag == 0x80u8 || flag == 0x40u8,
    ;
    assert((0u8 & 0x40u8) == 0 && (0x80u8 & 0x40u8) == 0) by (bit_vector);
}

/// Reads a gnark-compressed G1 point.
pub fn compressed_g1(bytes: &[u8]) -> (r: Result<G1Point, Sp1ToSnarkjsError>)
    requires
        bytes@.len() == 32,
    ensures
        ark_outcome(r, spec_compressed_g1(bytes@)),
        r matches Ok(p) ==> (p.infinity <==> bytes@[0] & 0xc0u8 == 0x40u8),
        r matches Ok(p) ==> (p.infinity ==> p == G1Point::spec_zero()),
{
    let encoded = gnark_compressed_to_ark(bytes)?;
    match ark_g1_deserialize(encoded.as_slice(), true) {
        Ok(p) => {
            proof {
                lemma_ark_flag_of_gnark(bytes@[0]);
                assert(encoded@[32 - 1] == (bytes@[0] & 0x3fu8) | ark_flag_for(bytes@[0])->Some_0);
            }
            Ok(p)
        },
        Err(m) => Err(Sp1ToSnarkjsError::ArkConversion(m)),
    }
}

/// Reads a gnark-compressed G2 point.
pub fn compressed_g2(bytes: &[u8]) -> (r: Result<G2Point, Sp1ToSnarkjsError>)
    requires
        bytes@.len() == 64,
    ensures
        ark_outcome(r, spec_compressed_g2(bytes@)),
        r matches Ok(p) ==> (p.infinity <==> bytes@[0] & 0xc0u8 == 0x40u8),
        r matches Ok(p) ==> (p.infinity ==> p == G2Point::spec_zero()),
{
    let encoded = gnark_compressed_to_ark(bytes)?;
    match ark_g2_deserialize(encoded.as_slice(), true) {
        Ok(p) => {
            proof {
                lemma_ark_flag_of_gnark(bytes@[0]);
                assert(encoded@[64 - 1] == (bytes@[0] & 0x3fu8) | ark_flag_for(bytes@[0])->Some_0);
            }
            Ok(p)
        },
        Err(m) => Err(Sp1ToSnarkjsError::ArkConversion(m)),
    }
}

/// Whether every byte is zero.
fn is_all_zero(bytes: &[u8]) -> (r: bool)
    ensures
        r == all_zero(bytes@),
{
    let mut i: usize = 0;
    while i < bytes.len()
        invariant
            i <= bytes@.len(),
            forall|k: int| 0 <= k < i ==> bytes@[k] == 0,
        decreases bytes@.len() - i,
    {
        if bytes[i] != 0 {
            return false;
        }
        i = i + 1;
    }
    true
}

/// The arkworks uncompressed encoding of a gnark-uncompressed point whose
/// coordinates take `half` bytes each.
fn to_ark_uncompressed(bytes: &[u8], half: usize) -> (out: Vec<u8>)
    requires
        bytes@.len() == 2 * half,
        half <= 64,
    ensures
        out@ == ark_uncompressed_encoding(bytes@, half as int),
{
    let mut out: Vec<u8> = Vec::with_capacity(2 * half + 1);
    let mut i: usize = 0;
    while i < half
        invariant
            i <= half,
            half <= 64,
            bytes@.len() == 2 * half,
            out@.len() == i,
            forall|k: int| 0 <= k < i ==> out@[k] == bytes@[half - 1 - k],
        decreases half - i,
    {
        out.push(bytes[half - 1 - i]);
        i = i + 1;
    }
    while i < 2 * half
        invariant
            half <= i <= 2 * half,
            half <= 64,
            bytes@.len() == 2 * half,
            out@.len() == i,
            forall|k: int| 0 <= k < half ==> out@[k] == bytes@[half - 1 - k],
            forall|k: int| half <= k < i ==> out@[k] == bytes@[3 * half - 1 - k],
        decreases 2 * half - i,
    {
        out.push(bytes[3 * half - 1 - i]);
        i = i + 1;
    }
    out.push(0u8);
    assert(out@ =~= ark_uncompressed_encoding(bytes@, half as int));
    out
}

/// Reads a gnark-uncompressed G1 point (x then y, 32 big-endian bytes each).
pub fn uncompressed_g1(bytes: &[u8]) -> (r: Result<G1Point, Sp1ToSnarkjsError>)
    requires
        bytes@.len() == 64,
    ensures
        ark_outcome(r, spec_uncompressed_g1(bytes@)),
        r matches Ok(p) ==> g1_from_gnark(p, bytes@),
{
    if is_all_zero(bytes) {
        return Ok(G1Point::zero());
    }
    let encoded = to_ark_uncompressed(bytes, 32);
    match ark_g1_deserialize(encoded.as_slice(), false) {
        Ok(p) => {
            proof {
                let g = bytes@;
                let e = encoded@;
                assert(e.subrange(0, 32).reverse() =~= g.subrange(0, 32));
                assert(clear_top_flags(e.subrange(32, 64), 31).reverse() =~= clear_top_flags(g.subrange(32, 64), 0));
            }
            Ok(p)
        },
        Err(m) => Err(Sp1ToSnarkjsError::ArkConversion(m)),
    }
}

/// Reads a gnark-uncompressed G2 point (x then y, 64 big-endian bytes each).
pub fn uncompressed_g2(bytes: &[u8]) -> (r: Result<G2Point, Sp1ToSnarkjsError>)
    requires
        bytes@.len() == 128,
    ensures
        ark_outcome(r, spec_uncompressed_g2(bytes@)),
        r matches Ok(p) ==> g2_from_gnark(p, bytes@),
{
    if is_all_zero(bytes) {
        return Ok(G2Point::zero());
    }
    let encoded = to_ark_uncompressed(bytes, 64);
    match ark_g2_deserialize(encoded.as_slice(), false) {
        Ok(p) => {
            proof {
                let g = bytes@;
                let e = encoded@;
                assert(e.subrange(0, 32).reverse() =~= g.subrange(32, 64));
                assert(e.subrange(32, 64).reverse() =~= g.subrange(0, 32));
                assert(e.subrange(64, 96).reverse() =~= g.subrange(96, 128));
                assert(clear_top_flags(e.subrange(96, 128), 31).reverse() =~= clear_top_flags(g.subrange(64, 96), 0));
            }
            Ok(p)
        },
        Err(m) => Err(Sp1ToSnarkjsError::ArkConversion(m)),
    }
}

// ---------------------------------------------------------------------------
// Groth16 proof and verifying-key layouts
// ---------------------------------------------------------------------------

/// Taking `len` bytes at `offset`: the bytes and the offset just past them, or why not.
pub open spec fn spec_take(buf: Seq<u8>, offset: int, len: int) -> Result<(Seq<u8>, int), Seq<char>> {
    if offset + len > usize::MAX {
        Err("point-data length overflow"@)
    } else if offset + len > buf.len() {
        Err("truncated point data"@)
    } else {
        Ok((buf.subrange(offset, offset + len), offset + len))
    }
}

/// The integer that four big-endian bytes stand for.
pub open spec fn be_u32_value(s: Seq<u8>) -> nat {
    s[0] as nat * 0x100_0000 + s[1] as nat * 0x1_0000 + s[2] as nat * 0x100 + s[3] as nat
}

/// Reading a big-endian `u32` at `offset`: its value and the offset past it, or why not.
pub open spec fn spec_read_u32(buf: Seq<u8>, offset: int) -> Result<(nat, int), Seq<char>> {
    match spec_take(buf, offset, 4) {
        Err(m) => Err(m),
        Ok((s, end)) => Ok((be_u32_value(s), end)),
    }
}

/// Takes `len` bytes of `buffer` at `*offset` and moves `*offset` past them; on
/// failure `*offset` is left as it was.
pub fn take<'a>(buffer: &'a [u8], offset: &mut usize, len: usize) -> (r: Result<&'a [u8], Sp1ToSnarkjsError>)
    ensures
        match spec_take(buffer@, *old(offset) as int, len as int) {
            Ok((s, end)) => r matches Ok(v) && v@ == s && *final(offset) == end,
            Err(m) => r matches Err(e) && e@ == ErrorView::ArkConversion(m) && *final(offset) == *old(offset),
        },
{
    let end = match offset.checked_add(len) {
        Some(end) => end,
        None => return Err(ark_error("point-data length overflow")),
    };
    if end > buffer.len() {
        return Err(ark_error("truncated point data"));
    }
    let value = &buffer[*offset..end];
    *offset = end;
    Ok(value)
}

/// Reads a big-endian `u32` of `buffer` at `*offset` and moves `*offset` past it; on
/// failure `*offset` is left as it was.
pub fn read_u32(buffer: &[u8], offset: &mut usize) -> (r: Result<usize, Sp1ToSnarkjsError>)
    ensures
        match spec_read_u32(buffer@, *old(offset) as int) {
            Ok((v, end)) => r matches Ok(w) && w == v && *final(offset) == end,
            Err(m) => r matches Err(e) && e@ == ErrorView::ArkConversion(m) && *final(offset) == *old(offset),
        },
{
    let bytes = take(buffer, offset, 4)?;
    let value: u32 = (bytes[0] as u32) * 0x100_0000 + (bytes[1] as u32) * 0x1_0000
        + (bytes[2] as u32) * 0x100 + bytes[3] as u32;
    Ok(value as usize)
}

/// The Groth16 proof that 256 gnark bytes stand for: A (uncompressed G1), B
/// (uncompressed G2), C (uncompressed G1).
pub open spec fn spec_load_ark_proof(buffer: Seq<u8>) -> Result<Groth16Proof, Seq<char>> {
    if buffer.len() != 256 {
        Err("invalid Groth16 proof length"@)
    } else {
        match spec_uncompressed_g1(buffer.subrange(0, 64)) {
            Err(m) => Err(m),
            Ok(a) => match spec_uncompressed_g2(buffer.subrange(64, 192)) {
                Err(m) => Err(m),
                Ok(b) => match spec_uncompressed_g1(buffer.subrange(192, 256)) {
                    Err(m) => Err(m),
                    Ok(c) => Ok(Groth16Proof { a, b, c }),
                },
            },
        }
    }
}

/// Reads a gnark-encoded Groth16 proof.
pub fn load_ark_proof_from_bytes(buffer: &[u8]) -> (r: Result<Groth16Proof, Sp1ToSnarkjsError>)
    ensures
        ark_outcome(r, spec_load_ark_proof(buffer@)),
        r matches Ok(p) ==> proof_from_gnark(p, buffer@),
{
    if buffer.len() != GROTH16_PROOF_BYTES {
        return Err(ark_error("invalid Groth16 proof length"));
    }
    let a = uncompressed_g1(&buffer[0..64])?;
    let b = uncompressed_g2(&buffer[64..192])?;
    let c = uncompressed_g1(&buffer[192..256])?;
    let p = Groth16Proof { a, b, c };
    proof {
        reveal(proof_from_gnark);
    }
    Ok(p)
}

/// Reading `count` consecutive compressed G1 points at `offset`: the points and the
/// offset past them, or why not.
pub open spec fn spec_parse_ic_points(buf: Seq<u8>, offset: int, count: nat) -> Result<(Seq<G1Point>, int), Seq<char>>
    decreases count,
{
    if count == 0 {
        Ok((seq![], offset))
    } else {
        match spec_parse_ic_points(buf, offset, (count - 1) as nat) {
            Err(m) => Err(m),
            Ok((points, off)) => match spec_take(buf, off, 32) {
                Err(m) => Err(m),
                Ok((s, end)) => match spec_compressed_g1(s) {
                    Err(m) => Err(m),
                    Ok(p) => Ok((points.push(p), end)),
                },
            },
        }
    }
}

/// Skipping `count` commitment-index arrays (a big-endian `u32` count of 4-byte
/// indexes, then the indexes) at `offset`: the offset past them, or why not.
pub open spec fn spec_skip_commitments(buf: Seq<u8>, offset: int, count: nat) -> Result<int, Seq<char>>
    decreases count,
{
    if count == 0 {
        Ok(offset)
    } else {
        match spec_skip_commitments(buf, offset, (count - 1) as nat) {
            Err(m) => Err(m),
            Ok(off) => match spec_read_u32(buf, off) {
                Err(m) => Err(m),
                Ok((n, off2)) => if n * 4 > usize::MAX {
                    Err("commitment-index length overflow"@)
                } else {
                    match spec_take(buf, off2, (n * 4) as int) {
                        Err(m) => Err(m),
                        Ok((_, end)) => Ok(end),
                    }
                },
            },
        }
    }
}

/// The verifying key that gnark's binary encoding stands for: alpha (compressed G1
/// at 0), beta, gamma and delta (compressed G2 at 64, 128 and 224), a big-endian
/// `u32` count at 288 of the compressed G1 points of IC that follow, then a count of
/// commitment-index arrays that must all be present.
pub open spec fn spec_load_vk(buf: Seq<u8>) -> Result<VerifyingKeyView, Seq<char>> {
    if buf.len() < 292 {
        Err("invalid Groth16 verification-key length"@)
    } else {
        match spec_compressed_g1(buf.subrange(0, 32)) {
            Err(m) => Err(m),
            Ok(alpha_g1) => match spec_compressed_g2(buf.subrange(64, 128)) {
                Err(m) => Err(m),
                Ok(beta_g2) => match spec_compressed_g2(buf.subrange(128, 192)) {
                    Err(m) => Err(m),
                    Ok(gamma_g2) => match spec_compressed_g2(buf.subrange(224, 288)) {
                        Err(m) => Err(m),
                        Ok(delta_g2) => match spec_read_u32(buf, 288) {
                            Err(m) => Err(m),
                            Ok((ic_len, off)) => match spec_parse_ic_points(buf, off, ic_len) {
                                Err(m) => Err(m),
                                Ok((gamma_abc_g1, off2)) => match spec_read_u32(buf, off2) {
                                    Err(m) => Err(m),
                                    Ok((arrays, off3)) => match spec_skip_commitments(buf, off3, arrays) {
                                        Err(m) => Err(m),
                                        Ok(_) => Ok(VerifyingKeyView { alpha_g1, beta_g2, gamma_g2, delta_g2, gamma_abc_g1 }),
                                    },
                                },
                            },
                        },
                    },
                },
            },
        }
    }
}

/// Once reading the points of IC fails, reading more of them fails the same way.
proof fn lemma_ic_points_failure_persists(buf: Seq<u8>, offset: int, k: nat, n: nat)
    requires
        k <= n,
        spec_parse_ic_points(buf, offset, k) is Err,
    ensures
        spec_parse_ic_points(buf, offset, n) == spec_parse_ic_points(buf, offset, k),
    decreases n - k,
{
    if k < n {
        lemma_ic_points_failure_persists(buf, offset, k, (n - 1) as nat);
    }
}

/// Once skipping commitment arrays fails, skipping more of them fails the same way.
proof fn lemma_skip_failure_persists(buf: Seq<u8>, offset: int, k: nat, n: nat)
    requires
        k <= n,
        spec_skip_commitments(buf, offset, k) is Err,
    ensures
        spec_skip_commitments(buf, offset, n) == spec_skip_commitments(buf, offset, k),
    decreases n - k,
{
    if k < n {
        lemma_skip_failure_persists(buf, offset, k, (n - 1) as nat);
    }
}

/// `buf2` is at least as long as `buf` and agrees with it on every byte from `from`
/// to the end of `buf`.
pub open spec fn agrees_from(buf: Seq<u8>, buf2: Seq<u8>, from: int) -> bool {
    &&& buf2.len() >= buf.len()
    &&& forall|i: int| from <= i < buf.len() ==> #[trigger] buf2[i] == buf[i]
}

/// Taking bytes that `buf` holds gives the same outcome on a buffer that agrees
/// with it there.
proof fn lemma_take_agrees(buf: Seq<u8>, buf2: Seq<u8>, from: int, off: int, len: int)
    requires
        0 <= from <= off,
        0 <= len,
        spec_take(buf, off, len) is Ok,
        agrees_from(buf, buf2, from),
    ensures
        spec_take(buf2, off, len) == spec_take(buf, off, len),
{
    assert(buf2.subrange(off, off + len) =~= buf.subrange(off, off + len));
}

/// Reading IC points that `buf` holds gives the same outcome on a buffer that agrees
/// with it from where the reading starts, and ends no earlier than it started.
proof fn lemma_ic_points_agree(buf: Seq<u8>, buf2: Seq<u8>, from: int, off: int, n: nat)
    requires
        0 <= from <= off,
        spec_parse_ic_points(buf, off, n) is Ok,
        agrees_from(buf, buf2, from),
    ensures
        spec_parse_ic_points(buf2, off, n) == spec_parse_ic_points(buf, off, n),
        spec_parse_ic_points(buf, off, n)->Ok_0.1 >= off,
    decreases n,
{
    if n > 0 {
        lemma_ic_points_agree(buf, buf2, from, off, (n - 1) as nat);
        let o = spec_parse_ic_points(buf, off, (n - 1) as nat)->Ok_0.1;
        lemma_take_agrees(buf, buf2, from, o, 32);
    }
}

/// Skipping commitment arrays that `buf` holds gives the same outcome on a buffer
/// that agrees with it from where the skipping starts, and ends no earlier.
proof fn lemma_skip_agrees(buf: Seq<u8>, buf2: Seq<u8>, from: int, off: int, n: nat)
    requires
        0 <= from <= off,
        spec_skip_commitments(buf, off, n) is Ok,
        agrees_from(buf, buf2, from),
    ensures
        spec_skip_commitments(buf2, off, n) == spec_skip_commitments(buf, off, n),
        spec_skip_commitments(buf, off, n)->Ok_0 >= off,
    decreases n,
{
    if n > 0 {
        lemma_skip_agrees(buf, buf2, from, off, (n - 1) as nat);
        let o = spec_skip_commitments(buf, off, (n - 1) as nat)->Ok_0;
        lemma_take_agrees(buf, buf2, from, o, 4);
        let (m, o2) = spec_read_u32(buf, o)->Ok_0;
        lemma_take_agrees(buf, buf2, from, o2, (m * 4) as int);
    }
}

/// The verifying-key reader never looks at gnark's G1 beta and delta slots (bytes 32
/// to 64 and 192 to 224), nor past the end of a key it reads: a key that reads the
/// same way keeps reading so when those slots change and bytes are appended.
pub proof fn lemma_vk_reader_ignores_g1_slots_and_trailing_bytes(buf: Seq<u8>, buf2: Seq<u8>)
    requires
        spec_load_vk(buf) is Ok,
        buf2.len() >= buf.len(),
        forall|i: int| 0 <= i < buf.len() && !(32 <= i < 64) && !(192 <= i < 224) ==> #[trigger] buf2[i] == buf[i],
    ensures
        spec_load_vk(buf2) == spec_load_vk(buf),
{
    assert(buf2.subrange(0, 32) =~= buf.subrange(0, 32));
    assert(buf2.subrange(64, 128) =~= buf.subrange(64, 128));
    assert(buf2.subrange(128, 192) =~= buf.subrange(128, 192));
    assert(buf2.subrange(224, 288) =~= buf.subrange(224, 288));
    assert(agrees_from(buf, buf2, 224));
    lemma_take_agrees(buf, buf2, 224, 288, 4);
    let (ic_len, off) = spec_read_u32(buf, 288)->Ok_0;
    lemma_ic_points_agree(buf, buf2, 224, off, ic_len);
    let off2 = spec_parse_ic_points(buf, off, ic_len)->Ok_0.1;
    lemma_take_agrees(buf, buf2, 224, off2, 4);
    let (arrays, off3) = spec_read_u32(buf, off2)->Ok_0;
    lemma_skip_agrees(buf, buf2, 224, off3, arrays);
}

/// Reads the compressed G1 points of IC.
fn read_ic_points(buffer: &[u8], offset: &mut usize, count: usize) -> (r: Result<Vec<G1Point>, Sp1ToSnarkjsError>)
    ensures
        match spec_parse_ic_points(buffer@, *old(offset) as int, count as nat) {
            Ok((points, end)) => r matches Ok(v) && v@ == points && *final(offset) == end,
            Err(m) => r matches Err(e) && e@ == ErrorView::ArkConversion(m),
        },
{
    let ghost start = *offset as int;
    let mut points: Vec<G1Point> = Vec::new();
    let mut i: usize = 0;
    while i < count
        invariant
            i <= count,
            start == *old(offset) as int,
            spec_parse_ic_points(buffer@, start, i as nat) == Ok::<(Seq<G1Point>, int), Seq<char>>((points@, *offset as int)),
        decreases count - i,
    {
        let ghost before = *offset as int;
        let point_bytes = match take(buffer, offset, 32) {
            Ok(b) => b,
            Err(e) => {
                proof {
                    lemma_ic_points_failure_persists(buffer@, start, (i + 1) as nat, count as nat);
                }
                return Err(e);
            },
        };
        let point = match compressed_g1(point_bytes) {
            Ok(p) => p,
            Err(e) => {
                proof {
                    lemma_ic_points_failure_persists(buffer@, start, (i + 1) as nat, count as nat);
                }
                return Err(e);
            },
        };
        points.push(point);
        i = i + 1;
    }
    Ok(points)
}

/// Skips the commitment-index arrays.
fn skip_commitments(buffer: &[u8], offset: &mut usize, count: usize) -> (r: Result<(), Sp1ToSnarkjsError>)
    ensures
        match spec_skip_commitments(buffer@, *old(offset) as int, count as nat) {
            Ok(end) => r is Ok && *final(offset) == end,
            Err(m) => r matches Err(e) && e@ == ErrorView::ArkConversion(m),
        },
{
    let ghost start = *offset as int;
    let mut i: usize = 0;
    while i < count
        invariant
            i <= count,
            start == *old(offset) as int,
            spec_skip_commitments(buffer@, start, i as nat) == Ok::<int, Seq<char>>(*offset as int),
        decreases count - i,
    {
        let indexes = match read_u32(buffer, offset) {
            Ok(n) => n,
            Err(e) => {
                proof {
                    lemma_skip_failure_persists(buffer@, start, (i + 1) as nat, count as nat);
                }
                return Err(e);
            },
        };
        let byte_len = match indexes.checked_mul(4) {
            Some(n) => n,
            None => {
                proof {
                    lemma_skip_failure_persists(buffer@, start, (i + 1) as nat, count as nat);
                }
                return Err(ark_error("commitment-index length overflow"));
            },
        };
        match take(buffer, offset, byte_len) {
            Ok(_) => {},
            Err(e) => {
                proof {
                    lemma_skip_failure_persists(buffer@, start, (i + 1) as nat, count as nat);
                }
                return Err(e);
            },
        }
        i = i + 1;
    }
    Ok(())
}

/// Reads a Groth16 verifying key in gnark's binary encoding.
pub fn load_ark_groth16_verifying_key_from_bytes(buffer: &[u8]) -> (r: Result<Groth16VerifyingKey, Sp1ToSnarkjsError>)
    ensures
        match spec_load_vk(buffer@) {
            Ok(vk) => r matches Ok(k) && k@ == vk,
            Err(m) => r matches Err(e) && e@ == ErrorView::ArkConversion(m),
        },
{
    if buffer.len() < 292 {
        return Err(ark_error("invalid Groth16 verification-key length"));
    }
    let alpha_g1 = compressed_g1(&buffer[0..32])?;
    let beta_g2 = compressed_g2(&buffer[64..128])?;
    let gamma_g2 = compressed_g2(&buffer[128..192])?;
    let delta_g2 = compressed_g2(&buffer[224..288])?;
    let mut offset: usize = 288;
    let ic_len = read_u32(buffer, &mut offset)?;
    let gamma_abc_g1 = read_ic_points(buffer, &mut offset, ic_len)?;
    let commitment_arrays = read_u32(buffer, &mut offset)?;
    skip_commitments(buffer, &mut offset, commitment_arrays)?;
    Ok(Groth16VerifyingKey { alpha_g1, beta_g2, gamma_g2, delta_g2, gamma_abc_g1 })
}

// ---------------------------------------------------------------------------
// SP1 artifacts
// ---------------------------------------------------------------------------

/// The `sp1_version` of the artifacts this converter accepts.
pub open spec fn supported_sp1_version() -> Seq<char> {
    "v6.1.0"@
}

/// An SP1 Groth16 wrapper proof: its five public inputs in decimal, the hex encoding
/// of the SP1 metadata followed by the gnark proof, the raw proof and the hash of the
/// Groth16 verifying key.
#[derive(Debug, Clone)]
pub struct Groth16Bn254Proof {
    pub public_inputs: [String; 5],
    pub encoded_proof: String,
    pub raw_proof: String,
    pub groth16_vkey_hash: [u8; 32],
}

/// The kind of proof that an SP1 artifact holds; of a Groth16 wrapper proof, the proof.
#[derive(Debug, Clone)]
pub enum SP1Proof {
    Core,
    Compressed,
    Plonk,
    Groth16(Groth16Bn254Proof),
}

/// An SP1 proof artifact with its public values and the SP1 version that made it.
#[derive(Debug, Clone)]
pub struct SP1ProofWithPublicValues {
    pub proof: SP1Proof,
    pub public_values: Vec<u8>,
    pub sp1_version: String,
    pub tee_proof: Option<Vec<u8>>,
}

impl SP1ProofWithPublicValues {
    /// An artifact without a TEE proof.
    pub fn new(proof: SP1Proof, public_values: Vec<u8>, sp1_version: String) -> (r: Self)
        ensures
            r.proof == proof,
            r.public_values@ == public_values@,
            r.sp1_version@ == sp1_version@,
            r.tee_proof is None,
    {
        SP1ProofWithPublicValues { proof, public_values, sp1_version, tee_proof: None }
    }
}

/// The Groth16 wrapper proof of an artifact, or why it cannot be converted: the
/// version must be the supported one, no TEE proof may be attached, the proof must
/// be a Groth16 proof, and its encoding must not be empty (a mock proof).
pub open spec fn spec_groth16_proof(p: SP1ProofWithPublicValues) -> Result<Groth16Bn254Proof, ErrorView> {
    if p.sp1_version@ != supported_sp1_version() {
        Err(ErrorView::UnsupportedSp1Version { actual: p.sp1_version@ })
    } else if p.tee_proof is Some {
        Err(ErrorView::TeeProofUnsupported)
    } else {
        match p.proof {
            SP1Proof::Groth16(g) => if g.encoded_proof@.len() == 0 {
                Err(ErrorView::MockProof)
            } else {
                Ok(g)
            },
            _ => Err(ErrorView::NotGroth16),
        }
    }
}

/// Selects the Groth16 wrapper proof of an artifact.
fn groth16_proof(proof: &SP1ProofWithPublicValues) -> (r: Result<&Groth16Bn254Proof, Sp1ToSnarkjsError>)
    ensures
        match spec_groth16_proof(*proof) {
            Ok(g) => r matches Ok(h) && *h == g,
            Err(e) => r matches Err(f) && f@ == e,
        },
{
    if !str_eq(proof.sp1_version.as_str(), "v6.1.0") {
        return Err(Sp1ToSnarkjsError::UnsupportedSp1Version { actual: proof.sp1_version.clone() });
    }
    if proof.tee_proof.is_some() {
        return Err(Sp1ToSnarkjsError::TeeProofUnsupported);
    }
    match &proof.proof {
        SP1Proof::Groth16(groth16) => {
            if groth16.encoded_proof.as_str().is_empty() {
                Err(Sp1ToSnarkjsError::MockProof)
            } else {
                Ok(groth16)
            }
        },
        _ => Err(Sp1ToSnarkjsError::NotGroth16),
    }
}

/// The five public inputs of an artifact's Groth16 wrapper proof, in decimal.
pub fn sp1_groth16_public_inputs(proof: &SP1ProofWithPublicValues) -> (r: Result<Vec<String>, Sp1ToSnarkjsError>)
    ensures
        match spec_groth16_proof(*proof) {
            Ok(g) => r matches Ok(v) && texts(v@) == texts(g.public_inputs@),
            Err(e) => r matches Err(f) && f@ == e,
        },
{
    let groth16 = groth16_proof(proof)?;
    let mut inputs: Vec<String> = Vec::with_capacity(5);
    let mut i: usize = 0;
    while i < 5
        invariant
            i <= 5,
            groth16.public_inputs@.len() == 5,
            inputs@.len() == i,
            forall|k: int| 0 <= k < i ==> inputs@[k]@ == groth16.public_inputs@[k]@,
        decreases 5 - i,
    {
        inputs.push(groth16.public_inputs[i].clone());
        i = i + 1;
    }
    assert(texts(inputs@) =~= texts(groth16.public_inputs@));
    Ok(inputs)
}

/// The 32 big-endian bytes of the element of Fr that a decimal string stands for, or
/// why it stands for none.
pub open spec fn spec_decimal_to_bytes32(value: Seq<char>) -> Result<Seq<u8>, ErrorView> {
    match fr_str_limbs(value) {
        None => Err(ErrorView::InvalidDecimal(value)),
        Some(l) => Ok(limbs_bytes_be(l)),
    }
}

/// The 32 big-endian bytes of the element of Fr that a decimal string stands for.
fn decimal_to_bytes32(value: &str) -> (r: Result<Vec<u8>, Sp1ToSnarkjsError>)
    ensures
        match spec_decimal_to_bytes32(value@) {
            Ok(b) => r matches Ok(v) && v@ == b,
            Err(e) => r matches Err(f) && f@ == e,
        },
{
    match fr_from_decimal(value) {
        None => Err(Sp1ToSnarkjsError::InvalidDecimal(value.to_owned())),
        Some(l) => Ok(limbs_to_bytes_be(&l)),
    }
}

/// The first disagreement among the first `n` of the three metadata words of a
/// decoded `encoded_proof` and public inputs 2, 3 and 4: word `k` (bytes `32k` to
/// `32k + 32`) must be the big-endian encoding of public input `2 + k`.
pub open spec fn spec_metadata_error(decoded: Seq<u8>, inputs: Seq<Seq<char>>, n: nat) -> Option<ErrorView>
    decreases n,
{
    if n == 0 {
        None
    } else {
        match spec_metadata_error(decoded, inputs, (n - 1) as nat) {
            Some(e) => Some(e),
            None => {
                let k = n - 1;
                match spec_decimal_to_bytes32(inputs[2 + k]) {
                    Err(e) => Some(e),
                    Ok(expected) => if decoded.subrange(32 * k, 32 * k + 32) != expected {
                        Some(ErrorView::EncodedMetadataMismatch)
                    } else {
                        None
                    },
                }
            },
        }
    }
}

/// The 256 gnark bytes of the Groth16 proof of an artifact, or why they cannot be had:
/// the artifact must hold a convertible Groth16 proof, its `encoded_proof` must be hex
/// of 352 bytes (704 hex digits), and its first 96 bytes must be public inputs 2, 3
/// and 4 in big-endian order.
pub open spec fn spec_proof_bytes(p: SP1ProofWithPublicValues) -> Result<Seq<u8>, ErrorView> {
    match spec_groth16_proof(p) {
        Err(e) => Err(e),
        Ok(g) => {
            let data = encode_utf8(g.encoded_proof@);
            match hex_decode_spec(data) {
                Err(h) => Err(ErrorView::Hex(h)),
                Ok(decoded) => if decoded.len() != 352 {
                    Err(ErrorView::InvalidEncodedProofLength { actual: data.len() as usize, expected: 704 })
                } else {
                    match spec_metadata_error(decoded, texts(g.public_inputs@), 3) {
                        Some(e) => Err(e),
                        None => Ok(decoded.subrange(96, 352)),
                    }
                },
            }
        },
    }
}

/// Once a metadata word disagrees, looking at more words reports that disagreement.
proof fn lemma_metadata_error_persists(decoded: Seq<u8>, inputs: Seq<Seq<char>>, k: nat, n: nat)
    requires
        k <= n,
        spec_metadata_error(decoded, inputs, k) is Some,
    ensures
        spec_metadata_error(decoded, inputs, n) == spec_metadata_error(decoded, inputs, k),
    decreases n - k,
{
    if k < n {
        lemma_metadata_error_persists(decoded, inputs, k, (n - 1) as nat);
    }
}

/// The 256 gnark bytes of the Groth16 proof of an artifact, after checking that the
/// SP1 metadata in front of them matches the public inputs.
pub fn sp1_groth16_proof_bytes(proof: &SP1ProofWithPublicValues) -> (r: Result<Vec<u8>, Sp1ToSnarkjsError>)
    ensures
        match spec_proof_bytes(*proof) {
            Ok(b) => r matches Ok(v) && v@ == b,
            Err(e) => r matches Err(f) && f@ == e,
        },
{
    let groth16 = groth16_proof(proof)?;
    let data = groth16.encoded_proof.as_str().as_bytes();
    let encoded = match hex_decode(data) {
        Ok(v) => v,
        Err(h) => return Err(Sp1ToSnarkjsError::Hex(h)),
    };
    if encoded.len() != SP1_GROTH16_ENCODED_BYTES {
        return Err(Sp1ToSnarkjsError::InvalidEncodedProofLength { actual: data.len(), expected: 2 * SP1_GROTH16_ENCODED_BYTES });
    }
    let ghost inputs = texts(groth16.public_inputs@);
    let mut index: usize = 0;
    while index < 3
        invariant
            index <= 3,
            encoded@.len() == 352,
            groth16.public_inputs@.len() == 5,
            inputs == texts(groth16.public_inputs@),
            spec_groth16_proof(*proof) == Ok::<Groth16Bn254Proof, ErrorView>(*groth16),
            hex_decode_spec(encode_utf8(groth16.encoded_proof@)) == Ok::<Seq<u8>, crate::error::HexError>(encoded@),
            spec_metadata_error(encoded@, inputs, index as nat) is None,
        decreases 3 - index,
    {
        let expected = match decimal_to_bytes32(groth16.public_inputs[2 + index].as_str()) {
            Ok(b) => b,
            Err(e) => {
                proof {
                    lemma_metadata_error_persists(encoded@, inputs, (index + 1) as nat, 3);
                }
                return Err(e);
            },
        };
        let start = index * 32;
        if !bytes_eq(&encoded.as_slice()[start..start + 32], expected.as_slice()) {
            proof {
                lemma_metadata_error_persists(encoded@, inputs, (index + 1) as nat, 3);
            }
            return Err(Sp1ToSnarkjsError::EncodedMetadataMismatch);
        }
        index = index + 1;
    }
    Ok(slice_to_vec(&encoded.as_slice()[SP1_GROTH16_METADATA_BYTES..SP1_GROTH16_ENCODED_BYTES]))
}

/// Whenever the proof bytes of an artifact can be had, so can its public inputs: both
/// come from the same selected Groth16 proof.
pub proof fn lemma_proof_bytes_imply_public_inputs(p: SP1ProofWithPublicValues)
    ensures
        spec_proof_bytes(p) is Ok ==> spec_groth16_proof(p) is Ok,
{
}

/// An artifact of any SP1 version but the supported one is refused, naming that
/// version, by both the public-input and the proof-byte extraction.
pub proof fn lemma_unsupported_version_rejected(p: SP1ProofWithPublicValues)
    requires
        p.sp1_version@ != supported_sp1_version(),
    ensures
        spec_groth16_proof(p) == Err::<Groth16Bn254Proof, ErrorView>(ErrorView::UnsupportedSp1Version { actual: p.sp1_version@ }),
        spec_proof_bytes(p) == Err::<Seq<u8>, ErrorView>(ErrorView::UnsupportedSp1Version { actual: p.sp1_version@ }),
{
}

/// The layout of an accepted `encoded_proof`: it decodes to 352 bytes, whose first 96
/// are public inputs 2, 3 and 4 as 32-byte big-endian elements of Fr (each word read
/// big-endian is the canonical integer of its input) and whose last 256 are the
/// extracted gnark proof.
pub proof fn lemma_encoded_proof_layout(p: SP1ProofWithPublicValues)
    requires
        spec_proof_bytes(p) is Ok,
    ensures
        ({
            let g = spec_groth16_proof(p)->Ok_0;
            let decoded = hex_decode_spec(encode_utf8(g.encoded_proof@))->Ok_0;
            &&& hex_decode_spec(encode_utf8(g.encoded_proof@)) is Ok
            &&& decoded.len() == 352
            &&& spec_proof_bytes(p)->Ok_0 == decoded.subrange(96, 352)
            &&& spec_proof_bytes(p)->Ok_0.len() == 256
            &&& forall|k: int| 0 <= k < 3 ==> {
                &&& #[trigger] fr_str_limbs(g.public_inputs@[2 + k]@) is Some
                &&& decoded.subrange(32 * k, 32 * k + 32) == limbs_bytes_be(fr_str_limbs(g.public_inputs@[2 + k]@)->Some_0)
                &&& be_value(decoded.subrange(32 * k, 32 * k + 32)) == limbs_value(fr_str_limbs(g.public_inputs@[2 + k]@)->Some_0)
            }
        }),
{
    let g = spec_groth16_proof(p)->Ok_0;
    let decoded = hex_decode_spec(encode_utf8(g.encoded_proof@))->Ok_0;
    let inputs = texts(g.public_inputs@);
    assert(spec_metadata_error(decoded, inputs, 3) is None);
    assert(spec_metadata_error(decoded, inputs, 2) is None);
    assert(spec_metadata_error(decoded, inputs, 1) is None);
    assert forall|k: int| 0 <= k < 3 implies {
        &&& #[trigger] fr_str_limbs(g.public_inputs@[2 + k]@) is Some
        &&& decoded.subrange(32 * k, 32 * k + 32) == limbs_bytes_be(fr_str_limbs(g.public_inputs@[2 + k]@)->Some_0)
        &&& be_value(decoded.subrange(32 * k, 32 * k + 32)) == limbs_value(fr_str_limbs(g.public_inputs@[2 + k]@)->Some_0)
    } by {
        assert(inputs[2 + k] == g.public_inputs@[2 + k]@);
        lemma_limbs_bytes_be_value(fr_str_limbs(g.public_inputs@[2 + k]@)->Some_0);
    }
}

/// Taking `a` bytes and then `b` bytes succeeds exactly when taking `a + b` bytes at
/// once does, and gives the same bytes, split in two, and the same final offset.
pub proof fn lemma_take_concat(buf: Seq<u8>, offset: int, a: int, b: int)
    requires
        0 <= offset,
        0 <= a,
        0 <= b,
    ensures
        spec_take(buf, offset, a + b) is Ok <==> (spec_take(buf, offset, a) is Ok && spec_take(buf, offset + a, b) is Ok),
        spec_take(buf, offset, a + b) is Ok ==> {
            &&& spec_take(buf, offset, a + b)->Ok_0.0 == spec_take(buf, offset, a)->Ok_0.0 + spec_take(buf, offset + a, b)->Ok_0.0
            &&& spec_take(buf, offset, a + b)->Ok_0.1 == spec_take(buf, offset + a, b)->Ok_0.1
        },
{
    if spec_take(buf, offset, a + b) is Ok {
        assert(buf.subrange(offset, offset + a + b) =~= buf.subrange(offset, offset + a) + buf.subrange(offset + a, offset + a + b));
    }
}

/// The all-zero gnark proof stands for the proof whose three points are all the point
/// at infinity.
pub proof fn lemma_zero_proof_is_identity()
    ensures
        spec_load_ark_proof(Seq::new(256, |i: int| 0u8)) == Ok::<Groth16Proof, Seq<char>>(Groth16Proof {
            a: G1Point::spec_zero(),
            b: G2Point::spec_zero(),
            c: G1Point::spec_zero(),
        }),
{
    let z = Seq::new(256, |i: int| 0u8);
    assert(all_zero(z.subrange(0, 64)));
    assert(all_zero(z.subrange(64, 192)));
    assert(all_zero(z.subrange(192, 256)));
}

/// Rewriting a gnark-compressed point keeps every bit but the two flag bits: read
/// back to front, the arkworks encoding has the same bytes, and its last byte agrees
/// with the gnark first byte in the low six bits; the three gnark flags go to three
/// distinct arkworks flags.
pub proof fn lemma_gnark_to_ark_keeps_payload(bytes: Seq<u8>)
    requires
        spec_gnark_compressed_to_ark(bytes) is Ok,
    ensures
        ({
            let v = spec_gnark_compressed_to_ark(bytes)->Ok_0;
            &&& v.len() == bytes.len()
            &&& forall|i: int| 1 <= i < bytes.len() ==> v[bytes.len() - 1 - i] == #[trigger] bytes[i]
            &&& v[bytes.len() - 1] & 0x3fu8 == bytes[0] & 0x3fu8
        }),
        forall|x: u8, y: u8| #[trigger] ark_flag_for(x) is Some && #[trigger] ark_flag_for(y) is Some && ark_flag_for(x) == ark_flag_for(y) ==> x & 0xc0u8 == y & 0xc0u8,
{
    let first = bytes[0];
    let flag = ark_flag_for(first)->Some_0;
    assert(flag & 0x3fu8 == 0) by {
        assert(flag == 0u8 || flag == 0x80u8 || flag == 0x40u8);
        assert((0u8 & 0x3fu8) == 0 && (0x80u8 & 0x3fu8) == 0 && (0x40u8 & 0x3fu8) == 0) by (bit_vector);
    }
    assert(((first & 0x3fu8) | flag) & 0x3fu8 == first & 0x3fu8) by (bit_vector)
        requires
            flag & 0x3fu8 == 0,
    ;
}

/// Four bytes read as a big-endian `u32` stand for the integer they encode
/// big-endian.
proof fn lemma_be_u32_value(s: Seq<u8>)
    requires
        s.len() == 4,
    ensures
        be_u32_value(s) == be_value(s),
{
    assert(be_prefix_value(s, 0) == 0);
    assert(be_prefix_value(s, 1) == s[0] as nat);
    assert(be_prefix_value(s, 2) == s[0] as nat * 256 + s[1] as nat);
    assert(be_prefix_value(s, 3) == (s[0] as nat * 256 + s[1] as nat) * 256 + s[2] as nat);
    assert(be_prefix_value(s, 4) == ((s[0] as nat * 256 + s[1] as nat) * 256 + s[2] as nat) * 256 + s[3] as nat);
}

/// Reading a `u32` at `offset` succeeds exactly when four bytes are there, gives the
/// big-endian integer of those four bytes, and moves past them.
pub proof fn lemma_read_u32_is_big_endian(buf: Seq<u8>, offset: int)
    requires
        0 <= offset,
        offset + 4 <= usize::MAX,
    ensures
        spec_read_u32(buf, offset) is Ok <==> offset + 4 <= buf.len(),
        spec_read_u32(buf, offset) is Ok ==> spec_read_u32(buf, offset)->Ok_0 == (be_value(buf.subrange(offset, offset + 4)), offset + 4),
{
    if offset + 4 <= buf.len() {
        lemma_be_u32_value(buf.subrange(offset, offset + 4));
    }
}

/// gnark's compressed flags go to arkworks' exactly: `10` (the smaller y) to `00`
/// (arkworks' positive y), `11` (the larger y) to `10` (negative y), `01` (infinity)
/// to `01`, and `00` is refused. Every other bit is kept, the bytes in reverse order.
pub proof fn lemma_gnark_flag_mapping(bytes: Seq<u8>)
    requires
        bytes.len() == 32 || bytes.len() == 64,
    ensures
        (bytes[0] & 0xc0u8 == 0u8) <==> spec_gnark_compressed_to_ark(bytes) is Err,
        spec_gnark_compressed_to_ark(bytes) is Ok ==> ({
            let n = bytes.len() as int;
            let e = spec_gnark_compressed_to_ark(bytes)->Ok_0;
            &&& e.len() == n
            &&& forall|i: int| 1 <= i < n ==> e[n - 1 - i] == #[trigger] bytes[i]
            &&& e[n - 1] & 0x3fu8 == bytes[0] & 0x3fu8
            &&& (bytes[0] & 0xc0u8 == 0x80u8 ==> e[n - 1] & 0xc0u8 == 0x00u8)
            &&& (bytes[0] & 0xc0u8 == 0xc0u8 ==> e[n - 1] & 0xc0u8 == 0x80u8)
            &&& (bytes[0] & 0xc0u8 == 0x40u8 ==> e[n - 1] & 0xc0u8 == 0x40u8)
        }),
{
    let b = bytes[0];
    assert((b & 0xc0u8 == 0u8) <==> !(b & 0xc0u8 == 0x80u8 || b & 0xc0u8 == 0xc0u8 || b & 0xc0u8 == 0x40u8)) by (bit_vector);
    if spec_gnark_compressed_to_ark(bytes) is Ok {
        lemma_gnark_to_ark_keeps_payload(bytes);
        lemma_ark_flag_of_gnark(b);
    }
}

/// The compressed G1 point that gnark bytes stand for is what arkworks decodes, in
/// compressed mode, from the 32 bytes in reverse order with the gnark flag of the
/// first byte replaced by the arkworks one (`10` to `00`, `11` to `10`, `01` to `01`).
pub proof fn lemma_compressed_g1_decodes_rewritten(bytes: Seq<u8>)
    requires
        bytes.len() == 32,
        bytes[0] & 0xc0u8 != 0u8,
    ensures
        spec_compressed_g1(bytes) == ark_g1_deserialization(
            Seq::new(32, |i: int| if i == 31 {
                (bytes[0] & 0x3fu8) | (if bytes[0] & 0xc0u8 == 0x80u8 { 0x00u8 } else if bytes[0] & 0xc0u8 == 0xc0u8 { 0x80u8 } else { 0x40u8 })
            } else {
                bytes[31 - i]
            }),
            true,
        ),
{
    let b = bytes[0];
    let e = Seq::new(32, |i: int| if i == 31 {
        (b & 0x3fu8) | (if b & 0xc0u8 == 0x80u8 { 0x00u8 } else if b & 0xc0u8 == 0xc0u8 { 0x80u8 } else { 0x40u8 })
    } else {
        bytes[31 - i]
    });
    assert(b & 0xc0u8 != 0u8 ==> (b & 0xc0u8 == 0x80u8 || b & 0xc0u8 == 0xc0u8 || b & 0xc0u8 == 0x40u8)) by (bit_vector);
    assert(spec_gnark_compressed_to_ark(bytes)->Ok_0 =~= e);
}

/// The compressed G2 point that gnark bytes stand for is what arkworks decodes, in
/// compressed mode, from the 64 bytes in reverse order with the gnark flag of the
/// first byte replaced by the arkworks one (`10` to `00`, `11` to `10`, `01` to `01`).
pub proof fn lemma_compressed_g2_decodes_rewritten(bytes: Seq<u8>)
    requires
        bytes.len() == 64,
        bytes[0] & 0xc0u8 != 0u8,
    ensures
        spec_compressed_g2(bytes) == ark_g2_deserialization(
            Seq::new(64, |i: int| if i == 63 {
                (bytes[0] & 0x3fu8) | (if bytes[0] & 0xc0u8 == 0x80u8 { 0x00u8 } else if bytes[0] & 0xc0u8 == 0xc0u8 { 0x80u8 } else { 0x40u8 })
            } else {
                bytes[63 - i]
            }),
            true,
        ),
{
    let b = bytes[0];
    let e = Seq::new(64, |i: int| if i == 63 {
        (b & 0x3fu8) | (if b & 0xc0u8 == 0x80u8 { 0x00u8 } else if b & 0xc0u8 == 0xc0u8 { 0x80u8 } else { 0x40u8 })
    } else {
        bytes[63 - i]
    });
    assert(b & 0xc0u8 != 0u8 ==> (b & 0xc0u8 == 0x80u8 || b & 0xc0u8 == 0xc0u8 || b & 0xc0u8 == 0x40u8)) by (bit_vector);
    assert(spec_gnark_compressed_to_ark(bytes)->Ok_0 =~= e);
}

/// Reading `n` IC points at `offset` keeps the order of the bytes: when it succeeds it
/// gives exactly `n` points, point `k` being the compressed G1 point in bytes
/// `offset + 32k` to `offset + 32k + 32`, and it ends `32n` bytes further on.
pub proof fn lemma_ic_points_in_order(buf: Seq<u8>, offset: int, n: nat)
    requires
        0 <= offset,
        spec_parse_ic_points(buf, offset, n) is Ok,
    ensures
        spec_parse_ic_points(buf, offset, n)->Ok_0.0.len() == n,
        spec_parse_ic_points(buf, offset, n)->Ok_0.1 == offset + 32 * n,
        n > 0 ==> offset + 32 * n <= buf.len(),
        forall|k: int| 0 <= k < n ==> {
            &&& spec_compressed_g1(#[trigger] buf.subrange(offset + 32 * k, offset + 32 * k + 32)) is Ok
            &&& spec_parse_ic_points(buf, offset, n)->Ok_0.0[k] == spec_compressed_g1(buf.subrange(offset + 32 * k, offset + 32 * k + 32))->Ok_0
        },
    decreases n,
{
    if n > 0 {
        let m = (n - 1) as nat;
        lemma_ic_points_in_order(buf, offset, m);
        let (points, o) = spec_parse_ic_points(buf, offset, m)->Ok_0;
        assert(o == offset + 32 * m);
        let (s, end) = spec_take(buf, o, 32)->Ok_0;
        let pt = spec_compressed_g1(s)->Ok_0;
        let all = spec_parse_ic_points(buf, offset, n)->Ok_0.0;
        assert(all == points.push(pt));
        assert forall|k: int| 0 <= k < n implies {
            &&& spec_compressed_g1(#[trigger] buf.subrange(offset + 32 * k, offset + 32 * k + 32)) is Ok
            &&& all[k] == spec_compressed_g1(buf.subrange(offset + 32 * k, offset + 32 * k + 32))->Ok_0
        } by {
            if k < m {
                assert(all[k] == points[k]);
            } else {
                assert(offset + 32 * k == o);
            }
        }
    }
}

/// The layout of a verifying key that reads: alpha is the compressed G1 point in bytes
/// 0 to 32; beta, gamma and delta the compressed G2 points in bytes 64 to 128, 128 to
/// 192 and 224 to 288; the number of IC points is the big-endian integer in bytes 288
/// to 292; and IC point `k` is the compressed G1 point in bytes `292 + 32k` to
/// `324 + 32k`, in that order.
pub proof fn lemma_vk_reader_layout(buf: Seq<u8>)
    requires
        spec_load_vk(buf) is Ok,
    ensures
        ({
            let vk = spec_load_vk(buf)->Ok_0;
            &&& buf.len() >= 292
            &&& vk.alpha_g1 == spec_compressed_g1(buf.subrange(0, 32))->Ok_0
            &&& vk.beta_g2 == spec_compressed_g2(buf.subrange(64, 128))->Ok_0
            &&& vk.gamma_g2 == spec_compressed_g2(buf.subrange(128, 192))->Ok_0
            &&& vk.delta_g2 == spec_compressed_g2(buf.subrange(224, 288))->Ok_0
            &&& vk.gamma_abc_g1.len() == be_value(buf.subrange(288, 292))
            &&& forall|k: int| 0 <= k < vk.gamma_abc_g1.len() ==>
                #[trigger] vk.gamma_abc_g1[k] == spec_compressed_g1(buf.subrange(292 + 32 * k, 324 + 32 * k))->Ok_0
        }),
{
    let vk = spec_load_vk(buf)->Ok_0;
    lemma_read_u32_is_big_endian(buf, 288);
    let (ic_len, off) = spec_read_u32(buf, 288)->Ok_0;
    lemma_ic_points_in_order(buf, 292, ic_len);
    assert forall|k: int| 0 <= k < vk.gamma_abc_g1.len() implies
        #[trigger] vk.gamma_abc_g1[k] == spec_compressed_g1(buf.subrange(292 + 32 * k, 324 + 32 * k))->Ok_0 by {
        assert(buf.subrange(292 + 32 * k, 292 + 32 * k + 32) == buf.subrange(292 + 32 * k, 324 + 32 * k));
    }
}

} // verus!
