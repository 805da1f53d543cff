//! The protocol abstraction every proving-system backend implements: a base
//! contract for setting up, proving and verifying, one refinement for
//! circuit-specific setup, and one for universal (bound-parameterized)
//! setup.
//!
//! The contracts pin verification down to per-implementation specification
//! functions and carry the central law of the abstraction: processing a
//! verifying key changes nothing about which (input, proof) pairs verify.

use vstd::prelude::*;
use crate::field::Field;
use crate::relations::{ConstraintSynthesizer, SynthesisError};

verus! {

/// An error of the proving-system layer, as a closed set of causes.
#[derive(Copy, Clone, PartialEq, Eq, Structural, Debug)]
pub enum SNARKError {
    /// The circuit could not be synthesized; the cause is carried along.
    Synthesis(SynthesisError),
    /// A failure while producing keys or parameters.
    SetupFailure,
    /// A failure inside the cryptographic machinery.
    CryptographicFailure,
}

/// A canonical byte encoding, e.g. for hashing a verifying key into a
/// transcript or persisting it.
pub trait ToBytes {
    /// The canonical bytes, at the specification level.
    spec fn spec_to_bytes(&self) -> Seq<u8>;

    /// Returns the canonical bytes.
    fn to_bytes(&self) -> (r: Vec<u8>)
        ensures
            r@ == self.spec_to_bytes(),
    ;
}

/// A source of cryptographically secure randomness. Nothing is promised of
/// the values drawn; every contract downstream holds whatever comes out.
pub trait RandomnessSource {
    /// Draws the next word.
    fn next_u64(&mut self) -> u64;
}

/// The base contract of a succinct non-interactive argument of knowledge.
pub trait SNARK<F: Field>: Sized {
    /// The key material the prover consumes.
    type ProvingKey: Clone;

    /// The key material the verifier consumes; canonically byte-encodable.
    type VerifyingKey: Clone + ToBytes;

    /// A produced proof.
    type Proof: Clone;

    /// A verifying key preprocessed for repeated verification; its default
    /// value stands for "not yet processed".
    type ProcessedVerifyingKey: Clone + Default;

    /// Whether a verifying key is structurally sound. `verify` and
    /// `process_vk` are owed success exactly on such keys; on others they
    /// may report a structural error instead.
    spec fn spec_vk_wf(vk: Self::VerifyingKey) -> bool;

    /// What verification decides for a key, public input and proof.
    spec fn spec_verify(vk: Self::VerifyingKey, input: Seq<F>, proof: Self::Proof) -> bool;

    /// The processed form of a verifying key: a pure function of the key.
    spec fn spec_process_vk(vk: Self::VerifyingKey) -> Self::ProcessedVerifyingKey;

    /// Whether a processed key is structurally sound.
    spec fn spec_pvk_wf(pvk: Self::ProcessedVerifyingKey) -> bool;

    /// What verification with a processed key decides.
    spec fn spec_verify_processed(
        pvk: Self::ProcessedVerifyingKey,
        input: Seq<F>,
        proof: Self::Proof,
    ) -> bool;

    /// The central law of the abstraction: preprocessing a well-formed
    /// verifying key preserves well-formedness and changes nothing about
    /// which (input, proof) pairs verify. Every implementation proves it.
    proof fn lemma_process_vk_equivalence(
        vk: Self::VerifyingKey,
        input: Seq<F>,
        proof: Self::Proof,
    )
        requires
            Self::spec_vk_wf(vk),
        ensures
            Self::spec_pvk_wf(Self::spec_process_vk(vk)),
            Self::spec_verify_processed(Self::spec_process_vk(vk), input, proof)
                == Self::spec_verify(vk, input, proof),
    ;

    /// Performs the one-shot, circuit-bound setup, consuming randomness.
    /// A circuit that cannot be synthesized is rejected with the synthesis
    /// cause; a returned verifying key is well formed.
    fn circuit_specific_setup<C: ConstraintSynthesizer<F>, R: RandomnessSource>(
        circuit: C,
        rng: &mut R,
    ) -> (r: Result<(Self::ProvingKey, Self::VerifyingKey), SNARKError>)
        ensures
            r matches Ok(keys) ==> Self::spec_vk_wf(keys.1),
            !circuit.spec_ok() ==> (r matches Err(e) && e is Synthesis),
    ;

    /// Produces a proof that the circuit's constraints are satisfied by
    /// some witness, consuming randomness. A circuit that cannot be
    /// synthesized is rejected with the synthesis cause.
    fn prove<C: ConstraintSynthesizer<F>, R: RandomnessSource>(
        circuit_pk: &Self::ProvingKey,
        circuit: C,
        rng: &mut R,
    ) -> (r: Result<Self::Proof, SNARKError>)
        ensures
            !circuit.spec_ok() ==> (r matches Err(e) && e is Synthesis),
    ;

    /// Decides whether `proof` is valid for `public_input` under
    /// `circuit_vk`: deterministic, never panics, and owed an answer on
    /// every well-formed key. An invalid proof is the answer `false`, never
    /// an error; the error channel reports only structural problems.
    fn verify(circuit_vk: &Self::VerifyingKey, public_input: &Vec<F>, proof: &Self::Proof) -> (r:
        Result<bool, SNARKError>)
        ensures
            Self::spec_vk_wf(*circuit_vk) ==> r is Ok,
            r matches Ok(b) ==> b == Self::spec_verify(*circuit_vk, public_input@, *proof),
    ;

    /// Precomputes a representation of the key optimized for repeated
    /// verification; a pure function of the key.
    fn process_vk(circuit_vk: &Self::VerifyingKey) -> (r: Result<
        Self::ProcessedVerifyingKey,
        SNARKError,
    >)
        ensures
            Self::spec_vk_wf(*circuit_vk) ==> r is Ok,
            r matches Ok(pvk) ==> pvk == Self::spec_process_vk(*circuit_vk),
    ;

    /// Decides as `verify` does, but from the preprocessed key.
    fn verify_with_processed_vk(
        circuit_pvk: &Self::ProcessedVerifyingKey,
        public_input: &Vec<F>,
        proof: &Self::Proof,
    ) -> (r: Result<bool, SNARKError>)
        ensures
            Self::spec_pvk_wf(*circuit_pvk) ==> r is Ok,
            r matches Ok(b) ==> b == Self::spec_verify_processed(
                *circuit_pvk,
                public_input@,
                *proof,
            ),
    ;
}

/// Law: for any well-formed verifying key, any public input and any proof,
/// verification through the processed key decides exactly as verification
/// with the key itself.
pub proof fn lemma_snark_equivalence<F: Field, S: SNARK<F>>(
    vk: S::VerifyingKey,
    input: Seq<F>,
    proof: S::Proof,
)
    requires
        S::spec_vk_wf(vk),
    ensures
        S::spec_verify_processed(S::spec_process_vk(vk), input, proof) == S::spec_verify(
            vk,
            input,
            proof,
        ),
{
    S::lemma_process_vk_equivalence(vk, input, proof);
}

/// A proving system with an ordinary, circuit-bound setup; `setup` simply
/// forwards, so call sites can be generic over such systems without
/// depending on the universal-setup refinement.
pub trait CircuitSpecificSetupSNARK<F: Field>: SNARK<F> {
    /// Sets up keys for one circuit; forwards to `circuit_specific_setup`.
    fn setup<C: ConstraintSynthesizer<F>, R: RandomnessSource>(circuit: C, rng: &mut R) -> (r:
        Result<(Self::ProvingKey, Self::VerifyingKey), SNARKError>)
        ensures
            r matches Ok(keys) ==> Self::spec_vk_wf(keys.1),
            !circuit.spec_ok() ==> (r matches Err(e) && e is Synthesis),
    {
        Self::circuit_specific_setup(circuit, rng)
    }
}

/// The outcome of deriving circuit keys from universal parameters. Running
/// out of capacity is an expected, recoverable outcome — not an error.
pub enum UniversalSetupIndexResult<KeyPair, Bound> {
    /// The parameters sufficed; here is the derived key pair.
    Successful(KeyPair),
    /// The parameters are too small for this circuit: retry the universal
    /// setup with a bound at least this large.
    NeedLargerBound(Bound),
}

/// A proving system whose one-time setup is universal: parameters are
/// produced once for a size bound and reused across circuits within it.
pub trait UniversalSetupSNARK<F: Field>: SNARK<F> {
    /// A size descriptor for the computations the parameters support.
    type ComputationBound: Clone + Default + core::fmt::Debug;

    /// The reusable output of the one-time universal setup.
    type PublicParameters: Clone + core::fmt::Debug;

    /// The bound a set of parameters was produced for.
    spec fn spec_pp_bound(pp: Self::PublicParameters) -> Self::ComputationBound;

    /// The order on bounds: whether what `b1` demands is within `b2`.
    spec fn spec_bound_le(b1: Self::ComputationBound, b2: Self::ComputationBound) -> bool;

    /// Produces reusable parameters sized by `compute_bound`, independent
    /// of any circuit; fails only if the bound itself is invalid.
    fn universal_setup<R: RandomnessSource>(
        compute_bound: &Self::ComputationBound,
        rng: &mut R,
    ) -> (r: Result<Self::PublicParameters, SNARKError>)
        ensures
            r matches Ok(pp) ==> Self::spec_pp_bound(pp) == *compute_bound,
    ;

    /// Derives a circuit-specific key pair from universal parameters. When
    /// the parameters are too small the result names a sufficient bound —
    /// one the supplied parameters do not cover — so the caller can rerun
    /// `universal_setup` and retry.
    fn index<C: ConstraintSynthesizer<F>, R: RandomnessSource>(
        pp: &Self::PublicParameters,
        circuit: C,
        rng: &mut R,
    ) -> (r: Result<
        UniversalSetupIndexResult<(Self::ProvingKey, Self::VerifyingKey), Self::ComputationBound>,
        SNARKError,
    >)
        ensures
            r matches Ok(UniversalSetupIndexResult::Successful(keys)) ==> Self::spec_vk_wf(
                keys.1,
            ),
            r matches Ok(UniversalSetupIndexResult::NeedLargerBound(b)) ==> !Self::spec_bound_le(
                b,
                Self::spec_pp_bound(*pp),
            ),
            !circuit.spec_ok() ==> (r matches Err(e) && e is Synthesis),
    ;
}

} // verus!
