//! Groth16 proof verification over BN254 for Circom/SnarkJS artifacts, with a
//! fixed-width binary form for every value.
//!
//! `artifact` reads the JSON-shaped key and proof artifacts into typed values,
//! `groth16` prepares keys and checks proofs, `persistence` writes and reads
//! the binary form, and `backend` holds the calls into arkworks.
pub mod artifact;
pub mod backend;
pub mod codec;
pub mod error;
pub mod field;
pub mod groth16;
pub mod laws;
pub mod model;
pub mod persistence;

pub use artifact::{CircomProofJson, VerificationKeyJson};
pub use error::{DecodeError, VerifierError};
pub use field::{fq_from_str, fr_from_str};
pub use groth16::{get_prepared_verifying_key, pairing, prepare_verifying_key, verify, verify_proof};
pub use model::{
    BigInteger256, Fq, Fq12, Fq2, Fq6, Fr, G1Affine, G2Affine, G2Prepared, PreparedVerifyingKey,
    Proof, VerifyingKey, VerifyingKeyPart1,
};
