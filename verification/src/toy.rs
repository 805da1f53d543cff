//! A small, fully verified proving system over the sample field.
//!
//! It is deliberately not cryptographic: a key is a random tag, and a proof
//! carries the tag of the key that produced it together with the public
//! inputs it attests. It exists so that the protocol traits and their laws
//! can be exercised end to end on concrete values, with every contract
//! proved rather than assumed.

use vstd::prelude::*;
use crate::field::{Field, Fp};
use crate::index::spec_le_bytes;
use crate::lc::ConstraintVar;
use crate::relations::{ConstraintRecorder, ConstraintSynthesizer, ConstraintSystem, SynthesisError};
use crate::snark::{
    CircuitSpecificSetupSNARK, RandomnessSource, SNARK, SNARKError, ToBytes,
    UniversalSetupIndexResult, UniversalSetupSNARK,
};

verus! {

/// A simple deterministic generator in xorshift style, standing in for a
/// cryptographic randomness source in examples and tests.
pub struct StepRng {
    /// The generator state; any nonzero seed works well.
    pub state: u64,
}

impl RandomnessSource for StepRng {
    fn next_u64(&mut self) -> u64 {
        let mut s = self.state;
        s = s ^ (s << 13u64);
        s = s ^ (s >> 7u64);
        s = s ^ (s << 17u64);
        self.state = s;
        s
    }
}

/// A circuit asserting that every witness value is a bit: for each witness
/// `w` it enforces `w · w = w`. Its public inputs are passed through as
/// given; synthesis always succeeds.
pub struct BitCircuit {
    /// The public-input assignment.
    pub inputs: Vec<Fp>,
    /// The witness values, each constrained to satisfy `w · w = w`.
    pub bits: Vec<Fp>,
}

impl ConstraintSynthesizer<Fp> for BitCircuit {
    open spec fn spec_ok(&self) -> bool {
        true
    }

    open spec fn spec_inputs(&self) -> Seq<Fp> {
        self.inputs@
    }

    open spec fn spec_constraints(&self) -> nat {
        self.bits@.len()
    }

    fn generate_constraints<CS: ConstraintSystem<Fp>>(self, cs: &mut CS) -> (r: Result<
        (),
        SynthesisError,
    >) {
        let n_inputs = self.inputs.len();
        let mut i: usize = 0;
        while i < n_inputs
            invariant
                i <= n_inputs == self.inputs@.len(),
                cs.spec_inputs() == old(cs).spec_inputs() + self.inputs@.take(i as int),
                cs.spec_aux() == old(cs).spec_aux(),
                cs.spec_constraints() == old(cs).spec_constraints(),
            decreases n_inputs - i,
        {
            cs.alloc_input(self.inputs[i]);
            i = i + 1;
            proof {
                assert(old(cs).spec_inputs() + self.inputs@.take(i - 1) + seq![self.inputs@[i - 1]]
                    =~= old(cs).spec_inputs() + self.inputs@.take(i as int));
                assert(old(cs).spec_inputs().push(self.inputs@[i - 1]) =~= old(cs).spec_inputs()
                    + seq![self.inputs@[i - 1]]);
            }
        }
        proof {
            assert(self.inputs@.take(n_inputs as int) =~= self.inputs@);
        }
        let n_bits = self.bits.len();
        let mut j: usize = 0;
        while j < n_bits
            invariant
                j <= n_bits == self.bits@.len(),
                cs.spec_inputs() == old(cs).spec_inputs() + self.inputs@,
                cs.spec_constraints() == old(cs).spec_constraints() + j,
            decreases n_bits - j,
        {
            let w = cs.alloc_aux(self.bits[j]);
            cs.enforce(
                ConstraintVar::from_var(w),
                ConstraintVar::from_var(w),
                ConstraintVar::from_var(w),
            );
            j = j + 1;
        }
        Ok(())
    }
}

/// A circuit like `BitCircuit` but whose single witness may be absent, as
/// when the prover was not handed an assignment: synthesis then fails with
/// `AssignmentMissing`, which the proving-system layer reports as its
/// synthesis cause.
pub struct OptionalBitCircuit {
    /// The public input.
    pub input: Fp,
    /// The witness bit, if the caller has it.
    pub bit: Option<Fp>,
}

impl ConstraintSynthesizer<Fp> for OptionalBitCircuit {
    open spec fn spec_ok(&self) -> bool {
        self.bit is Some
    }

    open spec fn spec_inputs(&self) -> Seq<Fp> {
        seq![self.input]
    }

    open spec fn spec_constraints(&self) -> nat {
        1
    }

    fn generate_constraints<CS: ConstraintSystem<Fp>>(self, cs: &mut CS) -> (r: Result<
        (),
        SynthesisError,
    >) {
        cs.alloc_input(self.input);
        proof {
            assert(old(cs).spec_inputs().push(self.input) =~= old(cs).spec_inputs()
                + seq![self.input]);
        }
        match self.bit {
            None => Err(SynthesisError::AssignmentMissing),
            Some(b) => {
                let w = cs.alloc_aux(b);
                cs.enforce(
                    ConstraintVar::from_var(w),
                    ConstraintVar::from_var(w),
                    ConstraintVar::from_var(w),
                );
                Ok(())
            },
        }
    }
}

/// The proving key of the toy system: the tag its setup drew.
#[derive(Clone, Copy, PartialEq, Eq, Structural, Debug)]
pub struct ToyProvingKey {
    /// The tag shared with the matching verifying key.
    pub tag: u64,
}

/// The verifying key of the toy system.
#[derive(Clone, Copy, PartialEq, Eq, Structural, Debug)]
pub struct ToyVerifyingKey {
    /// The tag shared with the matching proving key.
    pub tag: u64,
}

/// The processed form of a toy verifying key; processing only copies the
/// tag, which is exactly what makes the equivalence law transparent here.
#[derive(Clone, Copy, PartialEq, Eq, Structural, Debug)]
pub struct ToyProcessedKey {
    /// The tag copied from the verifying key.
    pub tag: u64,
}

impl Default for ToyProcessedKey {
    /// The "not yet processed" value.
    fn default() -> (r: Self)
        ensures
            r.tag == 0,
    {
        ToyProcessedKey { tag: 0 }
    }
}

/// A toy proof: the tag of the key pair that produced it, and the public
/// inputs it attests.
#[derive(Clone, Debug)]
pub struct ToyProof {
    /// The tag of the proving key used.
    pub tag: u64,
    /// The public-input assignment the proof attests.
    pub statement: Vec<Fp>,
}

impl ToBytes for ToyVerifyingKey {
    open spec fn spec_to_bytes(&self) -> Seq<u8> {
        spec_le_bytes(self.tag)
    }

    fn to_bytes(&self) -> (r: Vec<u8>) {
        let v = self.tag;
        let mut out: Vec<u8> = Vec::new();
        out.push(#[verifier::truncate] (v as u8));
        out.push(#[verifier::truncate] ((v >> 8u64) as u8));
        out.push(#[verifier::truncate] ((v >> 16u64) as u8));
        out.push(#[verifier::truncate] ((v >> 24u64) as u8));
        out.push(#[verifier::truncate] ((v >> 32u64) as u8));
        out.push(#[verifier::truncate] ((v >> 40u64) as u8));
        out.push(#[verifier::truncate] ((v >> 48u64) as u8));
        out.push(#[verifier::truncate] ((v >> 56u64) as u8));
        proof {
            assert(v >> 0u64 == v) by (bit_vector);
            assert(out@ =~= spec_le_bytes(v));
        }
        out
    }
}

/// Element-wise comparison of two public-input vectors.
fn fp_vec_eq(a: &Vec<Fp>, b: &Vec<Fp>) -> (r: bool)
    ensures
        r <==> a@ == b@,
{
    if a.len() != b.len() {
        proof {
            assert(a@.len() != b@.len());
        }
        return false;
    }
    let n = a.len();
    let mut i: usize = 0;
    while i < n
        invariant
            i <= n == a@.len() == b@.len(),
            forall|k: int| 0 <= k < i ==> a@[k] == b@[k],
        decreases n - i,
    {
        if a[i] != b[i] {
            return false;
        }
        i = i + 1;
    }
    proof {
        assert(a@ =~= b@);
    }
    true
}

/// The toy proving system: an implementation of the whole trait family with
/// every contract proved.
pub struct ToySnark;

impl SNARK<Fp> for ToySnark {
    type ProvingKey = ToyProvingKey;

    type VerifyingKey = ToyVerifyingKey;

    type Proof = ToyProof;

    type ProcessedVerifyingKey = ToyProcessedKey;

    open spec fn spec_vk_wf(vk: ToyVerifyingKey) -> bool {
        true
    }

    open spec fn spec_verify(vk: ToyVerifyingKey, input: Seq<Fp>, proof: ToyProof) -> bool {
        proof.tag == vk.tag && proof.statement@ == input
    }

    open spec fn spec_process_vk(vk: ToyVerifyingKey) -> ToyProcessedKey {
        ToyProcessedKey { tag: vk.tag }
    }

    open spec fn spec_pvk_wf(pvk: ToyProcessedKey) -> bool {
        true
    }

    open spec fn spec_verify_processed(pvk: ToyProcessedKey, input: Seq<Fp>, proof: ToyProof) -> bool {
        proof.tag == pvk.tag && proof.statement@ == input
    }

    proof fn lemma_process_vk_equivalence(vk: ToyVerifyingKey, input: Seq<Fp>, proof: ToyProof) {
    }

    /// Setup is owed success whenever the circuit synthesizes, and the two
    /// keys it returns share one tag.
    fn circuit_specific_setup<C: ConstraintSynthesizer<Fp>, R: RandomnessSource>(
        circuit: C,
        rng: &mut R,
    ) -> (r: Result<(ToyProvingKey, ToyVerifyingKey), SNARKError>)
        ensures
            circuit.spec_ok() ==> r is Ok,
            r matches Ok(keys) ==> keys.0.tag == keys.1.tag,
    {
        let mut recorder = ConstraintRecorder::<Fp>::new();
        match circuit.generate_constraints(&mut recorder) {
            Ok(()) => {
                let tag = rng.next_u64();
                Ok((ToyProvingKey { tag }, ToyVerifyingKey { tag }))
            },
            Err(e) => Err(SNARKError::Synthesis(e)),
        }
    }

    /// A proof produced under a key carries that key's tag and attests
    /// exactly the circuit's public inputs, so it verifies under the
    /// matching verifying key.
    fn prove<C: ConstraintSynthesizer<Fp>, R: RandomnessSource>(
        circuit_pk: &ToyProvingKey,
        circuit: C,
        rng: &mut R,
    ) -> (r: Result<ToyProof, SNARKError>)
        ensures
            circuit.spec_ok() ==> (r matches Ok(proof) && proof.tag == circuit_pk.tag
                && proof.statement@ == circuit.spec_inputs()),
    {
        let mut recorder = ConstraintRecorder::<Fp>::new();
        match circuit.generate_constraints(&mut recorder) {
            Ok(()) => {
                proof {
                    assert(Seq::<Fp>::empty() + circuit.spec_inputs() =~= circuit.spec_inputs());
                }
                Ok(ToyProof { tag: circuit_pk.tag, statement: recorder.inputs })
            },
            Err(e) => Err(SNARKError::Synthesis(e)),
        }
    }

    /// Toy verification never needs the error channel: every key is
    /// structurally sound.
    fn verify(circuit_vk: &ToyVerifyingKey, public_input: &Vec<Fp>, proof: &ToyProof) -> (r:
        Result<bool, SNARKError>)
        ensures
            r is Ok,
    {
        Ok(proof.tag == circuit_vk.tag && fp_vec_eq(&proof.statement, public_input))
    }

    fn process_vk(circuit_vk: &ToyVerifyingKey) -> (r: Result<ToyProcessedKey, SNARKError>)
        ensures
            r is Ok,
    {
        Ok(ToyProcessedKey { tag: circuit_vk.tag })
    }

    fn verify_with_processed_vk(
        circuit_pvk: &ToyProcessedKey,
        public_input: &Vec<Fp>,
        proof: &ToyProof,
    ) -> (r: Result<bool, SNARKError>)
        ensures
            r is Ok,
    {
        Ok(proof.tag == circuit_pvk.tag && fp_vec_eq(&proof.statement, public_input))
    }
}

impl CircuitSpecificSetupSNARK<Fp> for ToySnark {

}

/// The size descriptor of the toy universal setup: how many constraints
/// the parameters support.
#[derive(Clone, Copy, PartialEq, Eq, Structural, Debug)]
pub struct ToyBound {
    /// The largest number of constraints supported.
    pub max_constraints: u64,
}

impl Default for ToyBound {
    /// The empty bound: supports only circuits without constraints.
    fn default() -> (r: Self)
        ensures
            r.max_constraints == 0,
    {
        ToyBound { max_constraints: 0 }
    }
}

/// The toy universal parameters: they record the bound they were made for.
#[derive(Clone, Copy, PartialEq, Eq, Structural, Debug)]
pub struct ToyParameters {
    /// The bound the parameters support.
    pub bound: ToyBound,
}

impl UniversalSetupSNARK<Fp> for ToySnark {
    type ComputationBound = ToyBound;

    type PublicParameters = ToyParameters;

    open spec fn spec_pp_bound(pp: ToyParameters) -> ToyBound {
        pp.bound
    }

    open spec fn spec_bound_le(b1: ToyBound, b2: ToyBound) -> bool {
        b1.max_constraints <= b2.max_constraints
    }

    /// The toy universal setup accepts every bound.
    fn universal_setup<R: RandomnessSource>(compute_bound: &ToyBound, rng: &mut R) -> (r: Result<
        ToyParameters,
        SNARKError,
    >)
        ensures
            r matches Ok(pp) && pp.bound == *compute_bound,
    {
        Ok(ToyParameters { bound: *compute_bound })
    }

    /// Growth protocol: a circuit demanding more constraints than the
    /// parameters support is answered with `NeedLargerBound` carrying its
    /// exact requirement — at least as large as the true requirement, and
    /// beyond the supplied parameters — while a circuit within the bound is
    /// indexed successfully.
    fn index<C: ConstraintSynthesizer<Fp>, R: RandomnessSource>(
        pp: &ToyParameters,
        circuit: C,
        rng: &mut R,
    ) -> (r: Result<
        UniversalSetupIndexResult<(ToyProvingKey, ToyVerifyingKey), ToyBound>,
        SNARKError,
    >)
        ensures
            circuit.spec_ok() && circuit.spec_constraints() > pp.bound.max_constraints ==> (r
                matches Ok(UniversalSetupIndexResult::NeedLargerBound(b)) && b.max_constraints
                == circuit.spec_constraints()),
            circuit.spec_ok() && circuit.spec_constraints() <= pp.bound.max_constraints ==> (r
                matches Ok(UniversalSetupIndexResult::Successful(keys)) && keys.0.tag
                == keys.1.tag),
            circuit.spec_ok() ==> r is Ok,
    {
        let mut recorder = ConstraintRecorder::<Fp>::new();
        match circuit.generate_constraints(&mut recorder) {
            Ok(()) => {
                let need = recorder.num_constraints() as u64;
                if need > pp.bound.max_constraints {
                    Ok(UniversalSetupIndexResult::NeedLargerBound(ToyBound { max_constraints: need }))
                } else {
                    let tag = rng.next_u64();
                    Ok(
                        UniversalSetupIndexResult::Successful(
                            (ToyProvingKey { tag }, ToyVerifyingKey { tag }),
                        ),
                    )
                }
            },
            Err(e) => Err(SNARKError::Synthesis(e)),
        }
    }
}

/// Law: under the toy system, a proof carrying the tag of a verifying key
/// verifies exactly the statement it attests under that key — both directly
/// and through the processed key — and verifies no other statement. With
/// the ensured contracts of `setup` and `prove`, an honestly produced proof
/// therefore verifies its circuit's public inputs, and only those.
pub proof fn lemma_toy_honest_proof(vk: ToyVerifyingKey, proof: ToyProof, x: Seq<Fp>)
    requires
        proof.tag == vk.tag,
    ensures
        <ToySnark as SNARK<Fp>>::spec_verify(vk, proof.statement@, proof),
        <ToySnark as SNARK<Fp>>::spec_verify_processed(
            <ToySnark as SNARK<Fp>>::spec_process_vk(vk),
            proof.statement@,
            proof,
        ),
        x != proof.statement@ ==> !<ToySnark as SNARK<Fp>>::spec_verify(vk, x, proof),
{
}

} // verus!
