//! What the bytes of a proof file give, once decoded in the two formats SP1 writes.
use vstd::prelude::*;
use crate::error::{ErrorView, Sp1ToSnarkjsError};
use crate::sp1::SP1ProofWithPublicValues;

verus! {

/// The most bytes a proof file may take (16 MiB).
pub const MAX_PROOF_BYTES: u64 = 16777216;

/// The artifact a proof file holds, from its length and its decodings as the current
/// artifact and as a network artifact: a file of more than 16 MiB is refused; else
/// the current decoding is taken when it succeeded, else the network one (which has
/// no TEE proof); when both failed, the error is the current decoding's.
pub fn loaded_sp1_proof(
    file_len: u64,
    current: Result<SP1ProofWithPublicValues, String>,
    network: Result<SP1ProofWithPublicValues, String>,
) -> (r: Result<SP1ProofWithPublicValues, Sp1ToSnarkjsError>)
    ensures
        file_len > MAX_PROOF_BYTES ==> (r matches Err(e) && e@ == ErrorView::Sp1("proof file is larger than 16777216 bytes"@)),
        file_len <= MAX_PROOF_BYTES ==> match current {
            Ok(p) => r == Ok::<SP1ProofWithPublicValues, Sp1ToSnarkjsError>(p),
            Err(m) => match network {
                Ok(p) => r matches Ok(q) && q.proof == p.proof && q.public_values@ == p.public_values@
                    && q.sp1_version@ == p.sp1_version@ && q.tee_proof is None,
                Err(_) => r matches Err(e) && e@ == ErrorView::Sp1(m@),
            },
        },
{
    if file_len > MAX_PROOF_BYTES {
        return Err(Sp1ToSnarkjsError::Sp1("proof file is larger than 16777216 bytes".to_owned()));
    }
    match current {
        Ok(p) => Ok(p),
        Err(m) => match network {
            Ok(p) => Ok(SP1ProofWithPublicValues::new(p.proof, p.public_values, p.sp1_version)),
            Err(_) => Err(Sp1ToSnarkjsError::Sp1(m)),
        },
    }
}

} // verus!
