//! Field elements of BN254, held as the four little-endian 64-bit limbs of
//! their canonical integer, and their decimal and big-endian renderings.
use vstd::prelude::*;
use ark_ff::PrimeField;

verus! {

/// The integer that four little-endian 64-bit limbs stand for.
pub open spec fn limbs_value(l: [u64; 4]) -> nat {
    l[0] as nat + l[1] as nat * 0x1_0000_0000_0000_0000nat + l[2] as nat
        * 0x1_0000_0000_0000_0000_0000_0000_0000_0000nat + l[3] as nat
        * 0x1_0000_0000_0000_0000_0000_0000_0000_0000_0000_0000_0000_0000nat
}

/// The order of the BN254 scalar field Fr.
pub open spec fn fr_modulus() -> nat {
    21888242871839275222246405745257275088548364400416034343698204186575808495617nat
}

/// The characteristic of the BN254 base field Fq.
pub open spec fn fq_modulus() -> nat {
    21888242871839275222246405745257275088696311157297823662689037894645226208583nat
}

/// The canonical limbs of an element of Fq.
pub open spec fn is_fq(l: [u64; 4]) -> bool {
    limbs_value(l) < fq_modulus()
}

/// The canonical limbs of an element of Fr.
pub open spec fn is_fr(l: [u64; 4]) -> bool {
    limbs_value(l) < fr_modulus()
}

/// The character of a decimal digit.
pub open spec fn digit_char(d: nat) -> char
    recommends
        d < 10,
{
    (48 + d) as char
}

/// The decimal rendering of `n`, without leading zeroes ("0" for zero).
pub open spec fn decimal_string(n: nat) -> Seq<char>
    decreases n,
{
    if n < 10 {
        seq![digit_char(n)]
    } else {
        decimal_string(n / 10).push(digit_char(n % 10))
    }
}

/// A non-empty run of decimal digits.
pub open spec fn is_decimal_digits(s: Seq<char>) -> bool {
    &&& s.len() >= 1
    &&& forall|i: int| 0 <= i < s.len() ==> '0' <= #[trigger] s[i] <= '9'
}

/// A non-empty run of decimal digits with no superfluous leading zero.
pub open spec fn is_canonical_decimal(s: Seq<char>) -> bool {
    &&& is_decimal_digits(s)
    &&& (s.len() == 1 || s[0] != '0')
}

/// Every character is one that a numeral may hold: a decimal digit, a sign or an
/// underscore.
pub open spec fn numeral_chars(s: Seq<char>) -> bool {
    forall|i: int| 0 <= i < s.len() ==> ('0' <= #[trigger] s[i] <= '9' || s[i] == '+' || s[i] == '-' || s[i] == '_')
}

/// The integer that a run of decimal digits stands for.
pub open spec fn decimal_value(s: Seq<char>) -> nat
    decreases s.len(),
{
    if s.len() == 0 {
        0
    } else {
        decimal_value(s.drop_last()) * 10 + ((s.last() as u32) - 48) as nat
    }
}

/// Byte `j` (least significant first) of the 32-byte little-endian rendering of the limbs.
pub open spec fn limbs_byte_le(l: [u64; 4], j: int) -> u8 {
    ((l[j / 8] >> ((8 * (j % 8)) as u64)) & 0xff) as u8
}

/// The 32-byte big-endian rendering of the integer the limbs stand for.
pub open spec fn limbs_bytes_be(l: [u64; 4]) -> Seq<u8> {
    Seq::new(32, |i: int| limbs_byte_le(l, 31 - i))
}

/// The 32 big-endian bytes of the integer that four little-endian limbs stand for.
pub fn limbs_to_bytes_be(l: &[u64; 4]) -> (out: Vec<u8>)
    ensures
        out@ == limbs_bytes_be(*l),
{
    let mut out: Vec<u8> = Vec::with_capacity(32);
    let mut i: usize = 0;
    while i < 32
        invariant
            i <= 32,
            out@.len() == i,
            forall|k: int| 0 <= k < i ==> out@[k] == limbs_byte_le(*l, 31 - k),
        decreases 32 - i,
    {
        let j: usize = 31 - i;
        let limb: u64 = l[j / 8];
        let shift: u64 = (8 * (j % 8)) as u64;
        let b: u8 = ((limb >> shift) & 0xff) as u8;
        out.push(b);
        i = i + 1;
    }
    assert(out@ =~= limbs_bytes_be(*l));
    out
}

/// What `Fr::from_str` followed by `into_bigint` gives for a string.
pub uninterp spec fn fr_str_limbs(s: Seq<char>) -> Option<[u64; 4]>;

/// Parses a string as an element of Fr with `Fr::from_str` (ark-ff) and returns the
/// limbs of its canonical integer (`into_bigint`).
/// Claimed of the outside code: the result is the same for the same string, and a
/// parsed element's integer lies below the modulus. `from_str` reads the string with
/// num-bigint's `BigInt::from_str` (an optional sign, then digits, underscores allowed
/// after the first digit), reduces it modulo the modulus and converts; so an empty
/// string, or one holding a character that is neither a digit, a sign nor an
/// underscore, is refused, and a non-empty run of decimal digits (leading zeroes
/// included) parses to its value modulo the modulus. Which strings with signs or
/// underscores parse, and to what, is left unsaid.
#[verifier::external_body]
pub(crate) fn fr_from_decimal(s: &str) -> (r: Option<[u64; 4]>)
    ensures
        r == fr_str_limbs(s@),
        r matches Some(l) ==> is_fr(l),
        r is Some ==> s@.len() > 0 && numeral_chars(s@),
        r is None ==> !is_decimal_digits(s@),
        r matches Some(l) ==> (is_decimal_digits(s@) ==> limbs_value(l) == decimal_value(s@) % fr_modulus()),
{
    match s.parse::<ark_bn254::Fr>() {
        Ok(f) => Some(f.into_bigint().0),
        Err(_) => None,
    }
}

/// Renders a canonical field integer in decimal, as `BigInt::to_string` (ark-ff) does.
/// Claimed of the outside code: the text is the decimal rendering of the integer
/// without leading zeroes, as `BigInt`'s `Display` writes it through num-bigint's `BigUint`.
#[verifier::external_body]
pub fn field_to_decimal(value: [u64; 4]) -> (r: String)
    ensures
        r@ == decimal_string(limbs_value(value)),
{
    ark_ff::BigInt::new(value).to_string()
}

/// The decimal rendering of `n` is a canonical numeral (digits only, no superfluous
/// leading zero) whose value is `n`.
pub proof fn lemma_decimal_string_round_trip(n: nat)
    ensures
        is_canonical_decimal(decimal_string(n)),
        decimal_value(decimal_string(n)) == n,
        n >= 1 ==> decimal_string(n)[0] != '0',
    decreases n,
{
    assert(digit_char(n % 10) as u32 == 48 + n % 10);
    if n < 10 {
        assert(decimal_string(n).drop_last() =~= Seq::<char>::empty());
        assert(decimal_value(Seq::<char>::empty()) == 0);
    } else {
        lemma_decimal_string_round_trip(n / 10);
        let s = decimal_string(n / 10);
        let t = decimal_string(n);
        let c = digit_char(n % 10);
        assert(t == s.push(c));
        assert(t.drop_last() =~= s);
        assert(t.last() == c);
        assert forall|i: int| 0 <= i < t.len() implies '0' <= #[trigger] t[i] <= '9' by {
            if i < s.len() {
                assert(t[i] == s[i]);
            }
        }
        assert(t[0] == s[0]);
    }
}

/// The decimal rendering of a canonical element of Fr is a run of digits that
/// stands for that element's integer modulo the modulus, the very form that
/// `fr_from_decimal` parses back to the same integer.
pub proof fn lemma_rendered_fr_parses_back(l: [u64; 4])
    requires
        is_fr(l),
    ensures
        is_decimal_digits(decimal_string(limbs_value(l))),
        decimal_value(decimal_string(limbs_value(l))) % fr_modulus() == limbs_value(l),
{
    lemma_decimal_string_round_trip(limbs_value(l));
    vstd::arithmetic::div_mod::lemma_small_mod(limbs_value(l), fr_modulus());
}

/// The integer that the first `n` bytes of `s` stand for, read big-endian.
pub open spec fn be_prefix_value(s: Seq<u8>, n: nat) -> nat
    decreases n,
{
    if n == 0 {
        0
    } else {
        be_prefix_value(s, (n - 1) as nat) * 256 + s[n - 1] as nat
    }
}

/// The integer that a byte string stands for, read big-endian.
pub open spec fn be_value(s: Seq<u8>) -> nat {
    be_prefix_value(s, s.len())
}

/// The integer that a byte string stands for, read little-endian.
pub open spec fn le_value(s: Seq<u8>) -> nat {
    be_value(s.reverse())
}

/// A 64-bit word is the sum of its eight bytes, each at its place.
proof fn lemma_u64_bytes(x: u64)
    ensures
        x as nat == ((x >> 0u64) & 0xff) as nat + ((x >> 8u64) & 0xff) as nat * 0x100 + ((x >> 16u64) & 0xff) as nat
            * 0x1_0000 + ((x >> 24u64) & 0xff) as nat * 0x100_0000 + ((x >> 32u64) & 0xff) as nat * 0x1_0000_0000
            + ((x >> 40u64) & 0xff) as nat * 0x100_0000_0000 + ((x >> 48u64) & 0xff) as nat * 0x1_0000_0000_0000
            + ((x >> 56u64) & 0xff) as nat * 0x100_0000_0000_0000,
        forall|k: u64| 0 <= #[trigger] ((x >> k) & 0xff) < 256,
{
    assert(forall|k: u64| 0 <= #[trigger] ((x >> k) & 0xff) < 256) by (bit_vector);
    assert(x == ((x >> 0u64) & 0xff) + ((x >> 8u64) & 0xff) * 0x100 + ((x >> 16u64) & 0xff) * 0x1_0000 + ((x >> 24u64)
        & 0xff) * 0x100_0000 + ((x >> 32u64) & 0xff) * 0x1_0000_0000 + ((x >> 40u64) & 0xff) * 0x100_0000_0000 + ((x
        >> 48u64) & 0xff) * 0x1_0000_0000_0000 + ((x >> 56u64) & 0xff) * 0x100_0000_0000_0000) by (bit_vector);
}

/// Eight more bytes holding a 64-bit word, most significant first, append that word.
proof fn lemma_be_prefix_word(s: Seq<u8>, base: int, x: u64)
    requires
        0 <= base,
        base + 8 <= s.len(),
        s[base + 0] == ((x >> 56u64) & 0xff) as u8,
        s[base + 1] == ((x >> 48u64) & 0xff) as u8,
        s[base + 2] == ((x >> 40u64) & 0xff) as u8,
        s[base + 3] == ((x >> 32u64) & 0xff) as u8,
        s[base + 4] == ((x >> 24u64) & 0xff) as u8,
        s[base + 5] == ((x >> 16u64) & 0xff) as u8,
        s[base + 6] == ((x >> 8u64) & 0xff) as u8,
        s[base + 7] == ((x >> 0u64) & 0xff) as u8,
    ensures
        be_prefix_value(s, (base + 8) as nat) == be_prefix_value(s, base as nat) * 0x1_0000_0000_0000_0000nat + x as nat,
{
    lemma_u64_bytes(x);
    let b = be_prefix_value(s, base as nat);
    assert(be_prefix_value(s, (base + 1) as nat) == b * 256 + s[base + 0] as nat);
    assert(be_prefix_value(s, (base + 2) as nat) == be_prefix_value(s, (base + 1) as nat) * 256 + s[base + 1] as nat);
    assert(be_prefix_value(s, (base + 3) as nat) == be_prefix_value(s, (base + 2) as nat) * 256 + s[base + 2] as nat);
    assert(be_prefix_value(s, (base + 4) as nat) == be_prefix_value(s, (base + 3) as nat) * 256 + s[base + 3] as nat);
    assert(be_prefix_value(s, (base + 5) as nat) == be_prefix_value(s, (base + 4) as nat) * 256 + s[base + 4] as nat);
    assert(be_prefix_value(s, (base + 6) as nat) == be_prefix_value(s, (base + 5) as nat) * 256 + s[base + 5] as nat);
    assert(be_prefix_value(s, (base + 7) as nat) == be_prefix_value(s, (base + 6) as nat) * 256 + s[base + 6] as nat);
    assert(be_prefix_value(s, (base + 8) as nat) == be_prefix_value(s, (base + 7) as nat) * 256 + s[base + 7] as nat);
}

/// The 32 big-endian bytes of four limbs stand for the integer the limbs stand for.
pub proof fn lemma_limbs_bytes_be_value(l: [u64; 4])
    ensures
        be_value(limbs_bytes_be(l)) == limbs_value(l),
{
    let s = limbs_bytes_be(l);
    lemma_be_prefix_word(s, 0, l[3]);
    lemma_be_prefix_word(s, 8, l[2]);
    lemma_be_prefix_word(s, 16, l[1]);
    lemma_be_prefix_word(s, 24, l[0]);
    assert(be_prefix_value(s, 0) == 0);
    assert(be_value(s) == be_prefix_value(s, 32));
}

} // verus!
