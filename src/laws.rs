//! Laws that relate several operations of the library.
use crate::artifact::{
    spec_proof_from_json, spec_vk_from_json, strs, strs2, CircomProofJson, VerificationKeyJson,
};
use crate::groth16::spec_prepare;
use crate::model::VerifyingKeyView;
use crate::persistence::{enc_pvk, pvk_encodable};
use vstd::prelude::*;

verus! {

/// Two key artifacts hold the same text in every field that reading one
/// looks at.
pub open spec fn same_key_text(a: VerificationKeyJson, b: VerificationKeyJson) -> bool {
    &&& strs(a.vk_alpha_1@) == strs(b.vk_alpha_1@)
    &&& strs2(a.vk_beta_2@) == strs2(b.vk_beta_2@)
    &&& strs2(a.vk_gamma_2@) == strs2(b.vk_gamma_2@)
    &&& strs2(a.vk_delta_2@) == strs2(b.vk_delta_2@)
    &&& strs2(a.ic@) == strs2(b.ic@)
}

/// Two proof artifacts hold the same text in every field that reading one
/// looks at.
pub open spec fn same_proof_text(a: CircomProofJson, b: CircomProofJson) -> bool {
    &&& strs(a.pi_a@) == strs(b.pi_a@)
    &&& strs2(a.pi_b@) == strs2(b.pi_b@)
    &&& strs(a.pi_c@) == strs(b.pi_c@)
}

/// Reading the same text twice gives the same typed values, or the same error.
pub proof fn lemma_parsing_is_deterministic(
    key_a: VerificationKeyJson,
    key_b: VerificationKeyJson,
    proof_a: CircomProofJson,
    proof_b: CircomProofJson,
)
    requires
        same_key_text(key_a, key_b),
        same_proof_text(proof_a, proof_b),
    ensures
        spec_vk_from_json(key_a) == spec_vk_from_json(key_b),
        spec_proof_from_json(proof_a) == spec_proof_from_json(proof_b),
{
}

/// Preparing the same verifying key twice gives the same outcome, and
/// prepared keys with the same binary form.
pub proof fn lemma_preparation_is_deterministic(a: VerifyingKeyView, b: VerifyingKeyView)
    requires
        a == b,
    ensures
        spec_prepare(a) == spec_prepare(b),
        spec_prepare(a) is Ok && pvk_encodable(spec_prepare(a)->Ok_0) ==> enc_pvk(
            spec_prepare(a)->Ok_0,
        ) == enc_pvk(spec_prepare(b)->Ok_0),
{
}

} // verus!
