//! What can go wrong when reading artifacts or verifying a proof.
use vstd::prelude::*;

verus! {

/// Why an artifact was refused or a verification could not be carried out.
#[derive(Clone, Copy, Debug, PartialEq, Eq)]
pub enum VerifierError {
    /// A decimal string is empty or holds something other than digits.
    MalformedNumber,
    /// A JSON value is missing or has the wrong shape or arity.
    SchemaError,
    /// The number of public inputs plus one differs from the number of
    /// points in the key's `gamma_abc_g1`.
    PublicInputCountMismatch,
    /// A prepared key holds fewer line coefficients than the Miller loop reads.
    InvalidPreparedKey,
    /// The pairing arithmetic met a value with no inverse.
    PairingFailure,
    /// A field element that must be inverted has limbs at or above the
    /// modulus.
    OutOfRange,
}

/// Why bytes could not be read back as a value.
#[derive(Clone, Copy, Debug, PartialEq, Eq)]
pub enum DecodeError {
    /// The bytes end before the value does, or go on after it.
    TruncatedInput,
    /// A flag byte is neither 0 nor 1.
    InvalidDiscriminant,
}

} // verus!
