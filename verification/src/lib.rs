//! Conversion of SP1 Groth16 proof artifacts into snarkjs `proof.json`,
//! `public.json` and `verification_key.json`, with every conversion checked by
//! arkworks first.
pub mod codec;
pub mod curve;
pub mod error;
pub mod export;
pub mod field;
pub mod groth16;
pub mod load;
pub mod snarkjs;
pub mod sp1;

pub use error::{Result, Sp1ToSnarkjsError};
pub use export::{convert_sp1_proof, convert_sp1_proof_file, ExportedArtifacts};
pub use snarkjs::{SnarkJsProof, SnarkJsVerificationKey};
