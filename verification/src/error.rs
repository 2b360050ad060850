use vstd::prelude::*;

verus! {

/// The outcome of a conversion step.
pub type Result<T> = core::result::Result<T, Sp1ToSnarkjsError>;

/// Why a hex string could not be decoded.
#[derive(Debug, Clone, PartialEq, Eq)]
pub enum HexError {
    /// A byte that is not one of `0-9`, `a-f`, `A-F`, at the given byte index.
    InvalidHexCharacter { c: char, index: usize },
    /// The string has an odd number of bytes.
    OddLength,
    /// The string does not fit the fixed size it was decoded into.
    InvalidStringLength,
}

#[allow(inconsistent_fields)]
/// Everything that can go wrong while turning an SP1 Groth16 artifact into snarkjs JSON.
#[derive(Debug)]
pub enum Sp1ToSnarkjsError {
    Io(String),
    Json(String),
    Hex(HexError),
    Sp1(String),
    UnsupportedSp1Version { actual: String },
    NotGroth16,
    MockProof,
    TeeProofUnsupported,
    InvalidDecimal(String),
    InvalidEncodedProofLength { actual: usize, expected: usize },
    EncodedMetadataMismatch,
    ArkConversion(String),
    IcLengthMismatch { ic_len: usize, public_len: usize },
    ArkVerificationFailed,
}

#[allow(inconsistent_fields)]
/// The error with its text fields taken by their character sequences.
pub enum ErrorView {
    Io(Seq<char>),
    Json(Seq<char>),
    Hex(HexError),
    Sp1(Seq<char>),
    UnsupportedSp1Version { actual: Seq<char> },
    NotGroth16,
    MockProof,
    TeeProofUnsupported,
    InvalidDecimal(Seq<char>),
    InvalidEncodedProofLength { actual: usize, expected: usize },
    EncodedMetadataMismatch,
    ArkConversion(Seq<char>),
    IcLengthMismatch { ic_len: usize, public_len: usize },
    ArkVerificationFailed,
}

impl View for Sp1ToSnarkjsError {
    type V = ErrorView;

    open spec fn view(&self) -> ErrorView {
        match self {
            Sp1ToSnarkjsError::Io(m) => ErrorView::Io(m@),
            Sp1ToSnarkjsError::Json(m) => ErrorView::Json(m@),
            Sp1ToSnarkjsError::Hex(e) => ErrorView::Hex(*e),
            Sp1ToSnarkjsError::Sp1(m) => ErrorView::Sp1(m@),
            Sp1ToSnarkjsError::UnsupportedSp1Version { actual } => ErrorView::UnsupportedSp1Version {
                actual: actual@,
            },
            Sp1ToSnarkjsError::NotGroth16 => ErrorView::NotGroth16,
            Sp1ToSnarkjsError::MockProof => ErrorView::MockProof,
            Sp1ToSnarkjsError::TeeProofUnsupported => ErrorView::TeeProofUnsupported,
            Sp1ToSnarkjsError::InvalidDecimal(m) => ErrorView::InvalidDecimal(m@),
            Sp1ToSnarkjsError::InvalidEncodedProofLength { actual, expected } =>
                ErrorView::InvalidEncodedProofLength { actual: *actual, expected: *expected },
            Sp1ToSnarkjsError::EncodedMetadataMismatch => ErrorView::EncodedMetadataMismatch,
            Sp1ToSnarkjsError::ArkConversion(m) => ErrorView::ArkConversion(m@),
            Sp1ToSnarkjsError::IcLengthMismatch { ic_len, public_len } =>
                ErrorView::IcLengthMismatch { ic_len: *ic_len, public_len: *public_len },
            Sp1ToSnarkjsError::ArkVerificationFailed => ErrorView::ArkVerificationFailed,
        }
    }
}

/// A result whose error text is taken by its character sequence.
pub open spec fn text_result<T>(r: core::result::Result<T, String>) -> core::result::Result<T, Seq<char>> {
    match r {
        Ok(v) => Ok(v),
        Err(m) => Err(m@),
    }
}

/// The error of a failed arkworks conversion, carrying its message.
pub fn ark_error(message: &str) -> (e: Sp1ToSnarkjsError)
    ensures
        e@ == ErrorView::ArkConversion(message@),
{
    Sp1ToSnarkjsError::ArkConversion(message.to_owned())
}

} // verus!
